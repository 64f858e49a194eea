//! The sanitizer policy: which settings identify a person or enable
//! signing, and the neutral values that stand in for them.

use vstd::prelude::*;

verus! {

/// Sections purged by a hard switch.
pub open spec fn spec_blacklist_sections() -> Seq<Seq<char>> {
    seq!["user"@, "author"@, "committer"@, "gpg"@]
}

/// Keys purged by a hard switch.
pub open spec fn spec_blacklist_keys() -> Seq<Seq<char>> {
    seq!["core.sshCommand"@, "commit.gpgsign"@, "tag.gpgsign"@, "http.cookieFile"@]
}

/// Settings passed to a one-shot command ahead of the profile, so that it
/// cannot inherit the ambient identity.
pub open spec fn spec_blind_injections() -> Seq<(Seq<char>, Seq<char>)> {
    seq![
        ("user.name"@, ""@),
        ("user.email"@, ""@),
        ("user.signingkey"@, ""@),
        ("core.sshCommand"@, ""@),
        ("gpg.format"@, "openpgp"@),
        ("gpg.ssh.program"@, "ssh-keygen"@),
        ("gpg.program"@, "gpg"@),
        ("commit.gpgsign"@, "false"@),
        ("tag.gpgsign"@, "false"@),
    ]
}

/// The key under which a configuration links another file.
pub open spec fn spec_include_key() -> Seq<char> {
    "include.path"@
}

/// The section of `include.path`.
pub open spec fn spec_include_section() -> Seq<char> {
    "include"@
}

pub fn include_key() -> (r: String)
    ensures
        r@ == spec_include_key(),
{
    String::from_str("include.path")
}

pub fn include_section() -> (r: String)
    ensures
        r@ == spec_include_section(),
{
    String::from_str("include")
}

/// Sections purged by a hard switch.
pub fn blacklist_sections() -> (r: Vec<String>)
    ensures
        crate::text::views(r@) == spec_blacklist_sections(),
{
    let r = vec![
        String::from_str("user"),
        String::from_str("author"),
        String::from_str("committer"),
        String::from_str("gpg"),
    ];
    proof {
        assert(crate::text::views(r@) =~= spec_blacklist_sections());
    }
    r
}

/// Keys purged by a hard switch.
pub fn blacklist_keys() -> (r: Vec<String>)
    ensures
        crate::text::views(r@) == spec_blacklist_keys(),
{
    let r = vec![
        String::from_str("core.sshCommand"),
        String::from_str("commit.gpgsign"),
        String::from_str("tag.gpgsign"),
        String::from_str("http.cookieFile"),
    ];
    proof {
        assert(crate::text::views(r@) =~= spec_blacklist_keys());
    }
    r
}

/// What a sequence of string pairs holds, pair by pair.
pub open spec fn pair_views(v: Seq<(String, String)>) -> Seq<(Seq<char>, Seq<char>)> {
    v.map_values(|p: (String, String)| (p.0@, p.1@))
}

fn pair(k: &str, v: &str) -> (r: (String, String))
    ensures
        r.0@ == k@,
        r.1@ == v@,
{
    (String::from_str(k), String::from_str(v))
}

/// The neutral settings of a one-shot command.
pub fn blind_injections() -> (r: Vec<(String, String)>)
    ensures
        pair_views(r@) == spec_blind_injections(),
{
    let r = vec![
        pair("user.name", ""),
        pair("user.email", ""),
        pair("user.signingkey", ""),
        pair("core.sshCommand", ""),
        pair("gpg.format", "openpgp"),
        pair("gpg.ssh.program", "ssh-keygen"),
        pair("gpg.program", "gpg"),
        pair("commit.gpgsign", "false"),
        pair("tag.gpgsign", "false"),
    ];
    proof {
        assert(pair_views(r@) =~= spec_blind_injections());
    }
    r
}

} // verus!
