//! The text of profile files and of the configuration file, and how
//! profile ids follow from file names.

use vstd::prelude::*;
use crate::error::NajError;
use crate::paths::{expand_path, profile_file, spec_profile_file};
use crate::strategy::NajConfig;
use crate::text::{ends_with, is_prefix, is_suffix};

verus! {

/// The text of a new profile with identity `name` and `email`.
pub open spec fn spec_profile_content(name: Seq<char>, email: Seq<char>) -> Seq<char> {
    "[user]\n    name = "@ + name + "\n    email = "@ + email + "\n    # signingkey = \n"@
}

pub fn profile_content(name: &str, email: &str) -> (r: String)
    ensures
        r@ == spec_profile_content(name@, email@),
{
    String::from_str("[user]\n    name = ").concat(name).concat("\n    email = ").concat(email).concat(
        "\n    # signingkey = \n",
    )
}

/// The id of the profile stored in a file named `file_name`: the name
/// without its `.gitconfig` extension, where it has one.
pub open spec fn spec_profile_id_of(file_name: Seq<char>) -> Option<Seq<char>> {
    if is_suffix(".gitconfig"@, file_name) && file_name.len() > 10 {
        Some(file_name.subrange(0, file_name.len() - 10))
    } else {
        None
    }
}

pub fn profile_id_of(file_name: &str) -> (r: Option<String>)
    ensures
        match r {
            Some(id) => spec_profile_id_of(file_name@) == Some(id@),
            None => spec_profile_id_of(file_name@) is None,
        },
{
    proof {
        reveal_strlit(".gitconfig");
    }
    let n = file_name.unicode_len();
    if ends_with(file_name, ".gitconfig") && n > 10 {
        Some(String::from_str(file_name.substring_char(0, n - 10)))
    } else {
        None
    }
}

/// `s` with every backslash doubled.
pub open spec fn spec_escape_backslashes(s: Seq<char>) -> Seq<char>
    decreases s.len(),
{
    if s.len() == 0 {
        s
    } else {
        let r = spec_escape_backslashes(s.drop_last());
        if s.last() == '\\' {
            r + seq!['\\', '\\']
        } else {
            r.push(s.last())
        }
    }
}

pub fn escape_backslashes(s: &str) -> (r: String)
    ensures
        r@ == spec_escape_backslashes(s@),
{
    let n = s.unicode_len();
    let mut r = String::new();
    let mut i: usize = 0;
    proof {
        assert(s@.subrange(0, 0) =~= Seq::<char>::empty());
    }
    while i < n
        invariant
            n == s@.len(),
            i <= n,
            r@ == spec_escape_backslashes(s@.subrange(0, i as int)),
        decreases n - i,
    {
        proof {
            assert(s@.subrange(0, i + 1).drop_last() =~= s@.subrange(0, i as int));
        }
        let piece = s.substring_char(i, i + 1);
        if s.get_char(i) == '\\' {
            r.append("\\\\");
            proof {
                reveal_strlit("\\\\");
                assert("\\\\"@ =~= seq!['\\', '\\']);
            }
        } else {
            r.append(piece);
            proof {
                assert(piece@ =~= seq![s@[i as int]]);
            }
        }
        i += 1;
    }
    proof {
        assert(s@.subrange(0, n as int) =~= s@);
    }
    r
}

/// The configuration file written on first use, with profiles kept in
/// `profile_dir`.
pub open spec fn spec_config_text(profile_dir: Seq<char>) -> Seq<char> {
    "# Naj Configuration\n\nprofile_dir = \""@ + spec_escape_backslashes(profile_dir)
        + "\"\n\n[strategies]\n# include: Include the profile file in the git config\n# override: Override the git config with the profile file\n# INCLUDE, OVERRIDE: clear the value in the git config and apply config\nclone = \"INCLUDE\" # Hard strategy\nswitch = \"include\" # Soft strategy\n"@
}

pub fn config_text(profile_dir: &str) -> (r: String)
    ensures
        r@ == spec_config_text(profile_dir@),
{
    let escaped = escape_backslashes(profile_dir);
    String::from_str("# Naj Configuration\n\nprofile_dir = \"").concat(escaped.as_str()).concat(
        "\"\n\n[strategies]\n# include: Include the profile file in the git config\n# override: Override the git config with the profile file\n# INCLUDE, OVERRIDE: clear the value in the git config and apply config\nclone = \"INCLUDE\" # Hard strategy\nswitch = \"include\" # Soft strategy\n",
    )
}

/// The profile directory of `config`, with `~` expanded.
pub fn get_profile_dir(config: &NajConfig) -> (r: Result<String, NajError>)
    ensures
        !is_prefix("~"@, config.profile_dir@) ==> r is Ok && r->Ok_0@ == config.profile_dir@,
        r is Err ==> is_prefix("~"@, config.profile_dir@) && r->Err_0 is Io,
{
    expand_path(config.profile_dir.as_str())
}

/// The file of profile `id` under `config`'s profile directory.
pub fn get_profile_path(config: &NajConfig, id: &str) -> (r: Result<String, NajError>)
    ensures
        !is_prefix("~"@, config.profile_dir@) ==> r is Ok && r->Ok_0@ == spec_profile_file(
            config.profile_dir@,
            id@,
        ),
        r is Err ==> is_prefix("~"@, config.profile_dir@) && r->Err_0 is Io,
{
    match get_profile_dir(config) {
        Ok(dir) => Ok(profile_file(dir.as_str(), id)),
        Err(e) => Err(e),
    }
}

} // verus!
