//! Switch strategies and the tool's configuration values.

use vstd::prelude::*;
use crate::text::{same, spec_trim, trim};

verus! {

/// How a profile is applied to a repository's local configuration.
///
/// An include strategy links the profile file into the configuration; an
/// override strategy writes the profile's values into it. A hard strategy
/// first purges identity and signing settings; a soft one keeps them.
#[derive(Debug, Clone, Copy, PartialEq, Eq, Structural)]
pub enum SwitchStrategy {
    IncludeSoft,
    IncludeHard,
    OverrideSoft,
    OverrideHard,
}

/// The strategy that `force` turns `base` into: soft strategies become the
/// hard strategy of the same family, every other strategy is kept.
pub open spec fn spec_resolve(base: SwitchStrategy, force: bool) -> SwitchStrategy {
    if !force {
        base
    } else {
        match base {
            SwitchStrategy::IncludeSoft => SwitchStrategy::IncludeHard,
            SwitchStrategy::OverrideSoft => SwitchStrategy::OverrideHard,
            _ => base,
        }
    }
}

/// The name under which a strategy is written in the configuration file.
pub open spec fn spec_name(s: SwitchStrategy) -> Seq<char> {
    match s {
        SwitchStrategy::IncludeSoft => "include"@,
        SwitchStrategy::IncludeHard => "INCLUDE"@,
        SwitchStrategy::OverrideSoft => "override"@,
        SwitchStrategy::OverrideHard => "OVERRIDE"@,
    }
}

/// The strategy that a configuration value names, once surrounding white
/// space is removed; an unknown name means the soft include strategy.
pub open spec fn spec_from_name(s: Seq<char>) -> SwitchStrategy {
    let t = spec_trim(s);
    if t == "INCLUDE"@ {
        SwitchStrategy::IncludeHard
    } else if t == "OVERRIDE"@ {
        SwitchStrategy::OverrideHard
    } else if t == "override"@ {
        SwitchStrategy::OverrideSoft
    } else {
        SwitchStrategy::IncludeSoft
    }
}

impl SwitchStrategy {
    pub open spec fn is_hard(self) -> bool {
        self is IncludeHard || self is OverrideHard
    }

    pub open spec fn is_include(self) -> bool {
        self is IncludeSoft || self is IncludeHard
    }

    /// The effective strategy of a switch: `force` escalates a soft strategy
    /// to the hard one of its family and never de-escalates.
    pub fn resolve(self, force: bool) -> (r: SwitchStrategy)
        ensures
            r == spec_resolve(self, force),
            !force ==> r == self,
            force ==> r.is_hard(),
            r.is_include() == self.is_include(),
            self.is_hard() ==> r == self,
    {
        if !force {
            self
        } else {
            match self {
                SwitchStrategy::IncludeSoft => SwitchStrategy::IncludeHard,
                SwitchStrategy::OverrideSoft => SwitchStrategy::OverrideHard,
                _ => self,
            }
        }
    }

    /// Whether identity and signing settings are purged before applying.
    pub fn should_sanitize(self) -> (r: bool)
        ensures
            r == self.is_hard(),
    {
        match self {
            SwitchStrategy::IncludeHard | SwitchStrategy::OverrideHard => true,
            _ => false,
        }
    }

    /// Whether the profile is linked rather than copied.
    pub fn includes_profile(self) -> (r: bool)
        ensures
            r == self.is_include(),
    {
        match self {
            SwitchStrategy::IncludeSoft | SwitchStrategy::IncludeHard => true,
            _ => false,
        }
    }

    /// The name under which the strategy is written in the configuration file.
    pub fn name(self) -> (r: &'static str)
        ensures
            r@ == spec_name(self),
    {
        match self {
            SwitchStrategy::IncludeSoft => "include",
            SwitchStrategy::IncludeHard => "INCLUDE",
            SwitchStrategy::OverrideSoft => "override",
            SwitchStrategy::OverrideHard => "OVERRIDE",
        }
    }

    /// Reads a strategy name as the configuration file writes it.
    pub fn from_name(s: &str) -> (r: SwitchStrategy)
        ensures
            r == spec_from_name(s@),
    {
        let t = trim(s);
        if same(t.as_str(), "INCLUDE") {
            SwitchStrategy::IncludeHard
        } else if same(t.as_str(), "OVERRIDE") {
            SwitchStrategy::OverrideHard
        } else if same(t.as_str(), "override") {
            SwitchStrategy::OverrideSoft
        } else {
            SwitchStrategy::IncludeSoft
        }
    }
}

impl Default for SwitchStrategy {
    fn default() -> (r: SwitchStrategy)
        ensures
            r == SwitchStrategy::IncludeSoft,
    {
        SwitchStrategy::IncludeSoft
    }
}

/// The strategies of the configuration file's `[strategies]` table.
#[derive(Debug)]
pub struct Strategies {
    /// The strategy named for freshly created repositories, kept as written.
    pub clone: String,
    /// The base strategy of a switch.
    pub switch: SwitchStrategy,
}

impl Default for Strategies {
    fn default() -> (r: Strategies)
        ensures
            r.clone@ == Seq::<char>::empty(),
            r.switch == SwitchStrategy::IncludeSoft,
    {
        Strategies { clone: String::new(), switch: SwitchStrategy::IncludeSoft }
    }
}

/// The tool's configuration.
#[derive(Debug)]
pub struct NajConfig {
    pub strategies: Strategies,
    /// The directory of the profile files; a leading `~` stands for the
    /// home directory.
    pub profile_dir: String,
}

/// Where the profile files live unless the configuration says otherwise.
pub open spec fn spec_default_profile_dir() -> Seq<char> {
    "~/.config/naj/profiles"@
}

impl Default for NajConfig {
    fn default() -> (r: NajConfig)
        ensures
            r.strategies.clone@ == Seq::<char>::empty(),
            r.strategies.switch == SwitchStrategy::IncludeSoft,
            r.profile_dir@ == spec_default_profile_dir(),
    {
        NajConfig {
            strategies: Strategies::default(),
            profile_dir: String::from_str("~/.config/naj/profiles"),
        }
    }
}

/// The profile management requests of the command line; at most one is given.
#[derive(Debug)]
pub struct ManageFlags {
    /// Name, email and id of a profile to create.
    pub create: Option<Vec<String>>,
    /// Id of a profile to remove.
    pub remove: Option<String>,
    /// Id of a profile to edit.
    pub edit: Option<String>,
    /// Whether to list the profiles.
    pub list: bool,
}

} // verus!
