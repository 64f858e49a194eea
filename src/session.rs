//! One run of the tool as a sequence of decisions. A [`Session`] issues a
//! [`Request`] at a time; the host performs it and answers with an
//! [`Event`]. The session never touches the repository itself.

use vstd::prelude::*;
use crate::error::NajError;
use crate::gitconfig::{Entry, EntryView, GitOp, OpView, entry_views, op_views};
use crate::paths::{absolute, profile_file, spec_absolute, spec_profile_file};
use crate::plan::{
    Action, apply_profile_ops, spec_is_dirty, classify, exec_args, failed, is_dirty_config, op_args, parse_entries,
    parse_values, sanitize_ops, setup_dir, spec_apply_ops, spec_exec_args, spec_failed, spec_op_args, spec_parse_entries, spec_parse_values,
    spec_sanitize_ops, spec_setup_dir, spec_stale_ops, spec_tolerance, stale_include_ops, tolerance,
    Tolerance,
};
use crate::strategy::{NajConfig, SwitchStrategy, spec_resolve};
use crate::text::{is_prefix, spec_lines, spec_trim, starts_with, trim, views};

verus! {

/// What the session asks the host to do next.
#[derive(Debug)]
pub enum Request {
    /// Report whether the working directory lies in a repository, whether
    /// `profile_file` exists, and the working directory.
    Inspect { profile_file: String },
    /// Run git with `args`, passing the terminal through when `interactive`.
    /// Where `perform` is false, show the command instead and report success.
    Git { args: Vec<String>, interactive: bool, perform: bool },
    /// Make `path` the working directory, if it is a directory.
    Enter { path: String },
    /// Read the text of the repository's local configuration file.
    ReadLocalConfig,
    /// The run is over: show `notices` and end with `outcome`.
    Finish { outcome: Result<(), NajError>, notices: Vec<String> },
}

/// The outcome of a request.
#[derive(Debug)]
pub enum Event {
    /// Begins the run.
    Start,
    Inspected { repository: bool, profile_exists: bool, current_dir: Option<String> },
    /// git's exit code (none where a signal ended it) and output.
    GitDone { code: Option<i32>, stdout: String, stderr: String },
    Entered { ok: bool },
    LocalConfigRead { content: Option<String> },
}

/// The edits that a switch is making.
#[derive(Debug, Clone, Copy, PartialEq, Eq, Structural)]
pub enum Phase {
    Purge,
    Unlink,
    Apply,
}

/// Where a session stands: what it last asked for.
#[derive(Debug)]
pub enum Stage {
    Start,
    Creating,
    Entering,
    Inspecting,
    Editing { phase: Phase, ops: Vec<GitOp>, next: usize },
    Listing,
    ReadingProfile,
    ReadingForExec,
    Executing,
    CheckingDirt,
    Finished,
}

/// One run of the tool for one profile.
pub struct Session {
    pub profile_id: String,
    pub args: Vec<String>,
    pub action: Action,
    pub base: SwitchStrategy,
    pub force: bool,
    pub dry_run: bool,
    /// The profile directory, with `~` expanded, or why it is unknown.
    pub profile_dir: Result<String, NajError>,
    /// The strategy of the switch under way.
    pub effective: SwitchStrategy,
    /// The profile file, absolute once inspected.
    pub file: String,
    pub stage: Stage,
    pub notices: Vec<String>,
    /// The edits of the local configuration issued so far.
    pub issued: Ghost<Seq<OpView>>,
    /// The links that git listed after the purge.
    pub values: Ghost<Seq<Seq<char>>>,
    /// The profile's entries as git listed them.
    pub profile: Ghost<Seq<EntryView>>,
    /// Whether a switch has issued all its edits.
    pub switched: Ghost<bool>,
}


/// The git arguments that list the links of the local configuration.
pub open spec fn spec_list_links_args() -> Seq<Seq<char>> {
    seq!["config"@, "--local"@, "--get-all"@, "include.path"@]
}

/// The git arguments that list the entries of the profile file `file`.
pub open spec fn spec_read_profile_args(file: Seq<char>) -> Seq<Seq<char>> {
    seq!["config"@, "-f"@, file, "--list"@]
}

/// The words of `ws`, separated by single spaces.
pub open spec fn spec_join_words(ws: Seq<Seq<char>>) -> Seq<char>
    decreases ws.len(),
{
    if ws.len() == 0 {
        Seq::empty()
    } else if ws.len() == 1 {
        ws[0]
    } else {
        spec_join_words(ws.drop_last()) + " "@ + ws.last()
    }
}

/// The event that answers what a session at `stage` asked for.
pub open spec fn answers(stage: Stage, event: Event) -> bool {
    match stage {
        Stage::Start => event is Start,
        Stage::Inspecting => event is Inspected,
        Stage::Entering => event is Entered,
        Stage::CheckingDirt => event is LocalConfigRead,
        Stage::Finished => false,
        _ => event is GitDone,
    }
}

impl Session {
    /// The expanded profile directory, where it is known.
    pub open spec fn dir_view(self) -> Seq<char> {
        match self.profile_dir {
            Ok(d) => d@,
            Err(_) => Seq::empty(),
        }
    }

    /// The edits of a complete switch, in order: purge, removal of stale
    /// links, application of the profile.
    pub open spec fn switch_edits(self) -> Seq<OpView> {
        spec_sanitize_ops(self.effective) + spec_stale_ops(self.values@, self.dir_view())
            + spec_apply_ops(self.effective, self.file@, self.profile@)
    }

    /// The edits issued so far are a prefix of a switch's edits, in the
    /// order of its phases; a one-shot command issues none.
    pub open spec fn inv(self) -> bool {
        &&& self.action is Exec ==> self.issued@ == Seq::<OpView>::empty() && !self.switched@
        &&& self.switched@ ==> self.issued@ == self.switch_edits()
        &&& match self.stage {
            Stage::Editing { phase, ops, next } => {
                &&& self.profile_dir is Ok
                &&& !(self.action is Exec)
                &&& next <= ops.len()
                &&& !self.switched@
                &&& match phase {
                    Phase::Purge => op_views(ops@) == spec_sanitize_ops(self.effective)
                        && self.issued@ == op_views(ops@).take(next as int),
                    Phase::Unlink => op_views(ops@) == spec_stale_ops(self.values@, self.dir_view())
                        && self.issued@ == spec_sanitize_ops(self.effective) + op_views(ops@).take(
                        next as int,
                    ),
                    Phase::Apply => op_views(ops@) == spec_apply_ops(
                        self.effective,
                        self.file@,
                        self.profile@,
                    ) && self.issued@ == spec_sanitize_ops(self.effective) + spec_stale_ops(
                        self.values@,
                        self.dir_view(),
                    ) + op_views(ops@).take(next as int),
                }
            },
            Stage::Listing => self.profile_dir is Ok && !(self.action is Exec) && !self.switched@
                && self.issued@ == spec_sanitize_ops(self.effective),
            Stage::ReadingProfile => self.profile_dir is Ok && !(self.action is Exec)
                && !self.switched@ && !self.effective.is_include() && self.issued@
                == spec_sanitize_ops(self.effective) + spec_stale_ops(self.values@, self.dir_view()),
            Stage::CheckingDirt => self.switched@ && self.notices@.len() > 0
                && self.notices@.last()@ == spec_confirmation(self.profile_id@),
            Stage::Finished => true,
            Stage::ReadingForExec => self.profile_dir is Ok && self.action is Exec,
            Stage::Executing => self.profile_dir is Ok && self.action is Exec,
            Stage::Inspecting => self.profile_dir is Ok && self.issued@ == Seq::<OpView>::empty()
                && !self.switched@ && self.file@ == spec_profile_file(
                self.dir_view(),
                self.profile_id@,
            ),
            Stage::Creating => self.action is Setup && self.issued@ == Seq::<OpView>::empty()
                && !self.switched@,
            Stage::Entering => self.action is Setup && self.issued@ == Seq::<OpView>::empty()
                && !self.switched@,
            Stage::Start => self.issued@ == Seq::<OpView>::empty() && !self.switched@,
        }
    }

    /// A session between steps: its invariant holds, and an edit is
    /// always under way when it waits for git to perform one.
    pub open spec fn wf(self) -> bool {
        &&& self.inv()
        &&& self.stage matches Stage::Editing { next, .. } ==> next > 0
    }

    /// `r` is what a session at this stage asks for.
    pub open spec fn asks(self, r: Request) -> bool {
        match self.stage {
            Stage::Start => false,
            Stage::Creating => r matches Request::Git { args, interactive, perform } && views(args@)
                == views(self.args@) && interactive && perform == !self.dry_run,
            Stage::Entering => r matches Request::Enter { path } && path@ == spec_setup_dir(
                views(self.args@),
            ),
            Stage::Inspecting => r matches Request::Inspect { profile_file } && profile_file@
                == self.file@,
            Stage::Editing { .. } => r matches Request::Git { args, interactive, perform } && views(
                args@,
            ) == spec_op_args(self.issued@.last()) && !interactive && perform == !self.dry_run,
            Stage::Listing => r matches Request::Git { args, perform, .. } && views(args@)
                == spec_list_links_args() && perform,
            Stage::ReadingProfile => r matches Request::Git { args, perform, .. } && views(args@)
                == spec_read_profile_args(self.file@) && perform,
            Stage::ReadingForExec => r matches Request::Git { args, perform, .. } && views(args@)
                == spec_read_profile_args(self.file@) && perform,
            Stage::Executing => r matches Request::Git { args, interactive, perform } && views(args@)
                == spec_exec_args(self.file@, self.profile@, views(self.args@)) && interactive
                && perform == !self.dry_run,
            Stage::CheckingDirt => r is ReadLocalConfig,
            Stage::Finished => r is Finish,
        }
    }

    /// How far a session is from its end: the stages come in this order,
    /// and within one phase of edits the count of edits still to issue.
    pub open spec fn rank(self) -> nat {
        match self.stage {
            Stage::Start => 10,
            Stage::Creating => 9,
            Stage::Entering => 8,
            Stage::Inspecting => 7,
            Stage::ReadingForExec => 6,
            Stage::Executing => 5,
            Stage::Editing { phase, .. } => match phase {
                Phase::Purge => 6,
                Phase::Unlink => 4,
                Phase::Apply => 2,
            },
            Stage::Listing => 5,
            Stage::ReadingProfile => 3,
            Stage::CheckingDirt => 1,
            Stage::Finished => 0,
        }
    }

    pub open spec fn remaining(self) -> nat {
        match self.stage {
            Stage::Editing { ops, next, .. } => if next <= ops.len() {
                (ops.len() - next) as nat
            } else {
                0
            },
            _ => 0,
        }
    }

    /// `later` is closer to the end than this session.
    pub open spec fn precedes(self, later: Session) -> bool {
        later.rank() < self.rank() || (later.rank() == self.rank() && later.remaining()
            < self.remaining())
    }

    /// The state that a step carries over unless it says otherwise.
    pub open spec fn same_facts(self, other: Session) -> bool {
        &&& other.effective == self.effective
        &&& other.file == self.file
        &&& other.values == self.values
        &&& other.profile == self.profile
        &&& other.profile_dir == self.profile_dir
    }

    /// What a run fixes at its start.
    pub open spec fn same_run(self, other: Session) -> bool {
        &&& other.action == self.action
        &&& other.args == self.args
        &&& other.dry_run == self.dry_run
        &&& other.profile_id == self.profile_id
        &&& other.base == self.base
        &&& other.force == self.force
    }
}

/// Starts a run for profile `profile_id` with the git arguments `args`
/// that follow it. `force` escalates the configured switch strategy; under
/// `dry_run` the session has edits and commands shown, not performed.
pub fn run(config: &NajConfig, profile_id: &str, args: &Vec<String>, force: bool, dry_run: bool) -> (r:
    Session)
    ensures
        r.wf(),
        r.stage is Start,
        r.action == crate::plan::spec_classify(views(args@)),
        r.profile_id@ == profile_id@,
        views(r.args@) == views(args@),
        r.base == config.strategies.switch,
        r.force == force,
        r.dry_run == dry_run,
        r.issued@ == Seq::<OpView>::empty(),
        r.effective == spec_resolve(config.strategies.switch, force),
        !is_prefix("~"@, config.profile_dir@) ==> r.profile_dir is Ok && r.dir_view()
            == config.profile_dir@,
{
    let copied = copy_strings(args);
    Session {
        profile_id: String::from_str(profile_id),
        args: copied,
        action: classify(args),
        base: config.strategies.switch,
        force,
        dry_run,
        profile_dir: crate::profiles::get_profile_dir(config),
        effective: config.strategies.switch.resolve(force),
        file: String::new(),
        stage: Stage::Start,
        notices: Vec::new(),
        issued: Ghost(Seq::empty()),
        values: Ghost(Seq::empty()),
        profile: Ghost(Seq::empty()),
        switched: Ghost(false),
    }
}

fn copy_strings(v: &Vec<String>) -> (r: Vec<String>)
    ensures
        views(r@) == views(v@),
{
    let mut r: Vec<String> = Vec::new();
    let mut i: usize = 0;
    while i < v.len()
        invariant
            i <= v.len(),
            views(r@) == views(v@).take(i as int),
        decreases v.len() - i,
    {
        let ghost before = r@;
        r.push(v[i].clone());
        proof {
            assert(views(r@) =~= views(before).push(v@[i as int]@));
            assert(views(r@) =~= views(v@).take(i + 1));
        }
        i += 1;
    }
    proof {
        assert(views(v@).take(v.len() as int) =~= views(v@));
    }
    r
}

fn strings4(a: &str, b: &str, c: &str, d: &str) -> (r: Vec<String>)
    ensures
        views(r@) == seq![a@, b@, c@, d@],
{
    let r = vec![String::from_str(a), String::from_str(b), String::from_str(c), String::from_str(d)];
    proof {
        assert(views(r@) =~= seq![a@, b@, c@, d@]);
    }
    r
}

/// The words of `ws`, separated by single spaces.
pub fn join_words(ws: &Vec<String>) -> (r: String)
    ensures
        r@ == spec_join_words(views(ws@)),
{
    let mut r = String::new();
    let mut i: usize = 0;
    proof {
        assert(views(ws@).take(0) =~= Seq::<Seq<char>>::empty());
    }
    while i < ws.len()
        invariant
            i <= ws.len(),
            r@ == spec_join_words(views(ws@).take(i as int)),
        decreases ws.len() - i,
    {
        proof {
            assert(views(ws@).take(i + 1).drop_last() =~= views(ws@).take(i as int));
            assert(views(ws@)[i as int] == ws@[i as int]@);
        }
        if i == 0 {
            r = ws[0].clone();
            proof {
                assert(views(ws@).take(1) =~= seq![ws@[0]@]);
            }
        } else {
            r.append(" ");
            r.append(ws[i].as_str());
        }
        i += 1;
    }
    proof {
        assert(views(ws@).take(ws.len() as int) =~= views(ws@));
    }
    r
}

/// The notice that confirms a switch to profile `id`.
pub open spec fn spec_confirmation(id: Seq<char>) -> Seq<char> {
    "Switched to profile '"@ + id + "'"@
}

/// The notice that warns of settings that may show through a linked profile.
pub open spec fn spec_dirt_warning() -> Seq<char> {
    "WARNING: the local configuration still holds identity or signing settings that may override the profile"@
}

/// The context named when the edit `op` fails.
pub open spec fn spec_edit_context(op: OpView) -> Seq<char> {
    "git "@ + spec_join_words(spec_op_args(op))
}

impl Session {
    /// Ends the run with `outcome`.
    fn finish(&mut self, outcome: Result<(), NajError>) -> (r: Request)
        requires
            old(self).inv(),
        ensures
            final(self).wf(),
            final(self).asks(r),
            final(self).stage is Finished,
            r == (Request::Finish { outcome, notices: r->Finish_notices }),
            r->Finish_notices@ == old(self).notices@,
            old(self).same_run(*final(self)),
            final(self).issued == old(self).issued,
            final(self).switched == old(self).switched,
            final(self).effective == old(self).effective,
            final(self).file == old(self).file,
            final(self).values == old(self).values,
            final(self).profile == old(self).profile,
            final(self).profile_dir == old(self).profile_dir,
    {
        self.stage = Stage::Finished;
        let mut notices: Vec<String> = Vec::new();
        std::mem::swap(&mut notices, &mut self.notices);
        Request::Finish { outcome, notices }
    }

    /// Issues the edit at the current position of the phase under way.
    fn issue_at(&mut self) -> (r: Request)
        requires
            old(self).inv(),
            old(self).stage matches Stage::Editing { ops, next, .. } && next < ops.len(),
        ensures
            final(self).wf(),
            final(self).asks(r),
            final(self).stage is Editing,
            final(self).rank() == old(self).rank(),
            final(self).remaining() < old(self).remaining(),
            final(self).issued@ == old(self).issued@.push(final(self).issued@.last()),
            old(self).same_run(*final(self)),
            old(self).same_facts(*final(self)),
            final(self).switched == old(self).switched,
            final(self).notices == old(self).notices,
    {
        let mut stage = Stage::Finished;
        std::mem::swap(&mut stage, &mut self.stage);
        match stage {
            Stage::Editing { phase, ops, next } => {
                let args = op_args(&ops[next]);
                let ghost op = ops@[next as int]@;
                proof {
                    assert(op_views(ops@).take(next + 1) =~= op_views(ops@).take(next as int).push(op));
                    self.issued = Ghost(self.issued@.push(op));
                }
                self.stage = Stage::Editing { phase, ops, next: next + 1 };
                proof {
                    let a = spec_sanitize_ops(self.effective);
                    let b = spec_stale_ops(self.values@, self.dir_view());
                    assert(a + op_views(ops@).take(next + 1) =~= (a + op_views(ops@).take(next as int)).push(op));
                    assert(a + b + op_views(ops@).take(next + 1) =~= (a + b + op_views(ops@).take(next as int)).push(op));
                }
                Request::Git { args, interactive: false, perform: !self.dry_run }
            },
            _ => {
                proof {
                    assert(false);
                }
                Request::ReadLocalConfig
            },
        }
    }

    /// Issues the next edit of the phase under way, or moves on to what
    /// follows the phase.
    fn advance(&mut self) -> (r: Request)
        requires
            old(self).inv(),
            old(self).stage is Editing,
        ensures
            final(self).wf(),
            final(self).asks(r),
            !(r is Finish),
            old(self).precedes(*final(self)),
            final(self).issued@ == old(self).issued@ || (final(self).issued@ == old(self).issued@.push(
                final(self).issued@.last(),
            ) && final(self).stage is Editing),
            final(self).switched@ ==> final(self).stage is CheckingDirt,
            old(self).same_run(*final(self)),
            old(self).same_facts(*final(self)),
            !(final(self).stage is CheckingDirt) ==> final(self).notices == old(self).notices,
            !(final(self).stage is Executing),
    {
        let (phase, len, next) = match &self.stage {
            Stage::Editing { phase, ops, next } => (*phase, ops.len(), *next),
            _ => {
                proof {
                    assert(false);
                }
                (Phase::Apply, 0, 0)
            },
        };
        if next < len {
            return self.issue_at();
        }
        proof {
            assert(op_views(self.stage->Editing_ops@).take(next as int) =~= op_views(
                self.stage->Editing_ops@,
            ));
        }
        match phase {
            Phase::Purge => {
                self.stage = Stage::Listing;
                let args = strings4("config", "--local", "--get-all", "include.path");
                Request::Git { args, interactive: false, perform: true }
            },
            Phase::Unlink => {
                if self.effective.includes_profile() {
                    let none: Vec<Entry> = Vec::new();
                    let ops = apply_profile_ops(self.effective, self.file.as_str(), &none);
                    self.stage = Stage::Editing { phase: Phase::Apply, ops, next: 0 };
                    proof {
                        let a = spec_sanitize_ops(self.effective);
                        let b = spec_stale_ops(self.values@, self.dir_view());
                        assert(a + b + op_views(ops@).take(0) =~= a + b);
                        assert(op_views(ops@).len() == ops@.len());
                        assert(spec_apply_ops(self.effective, self.file@, self.profile@).len() == 1);
                    }
                    self.issue_at()
                } else {
                    let file = self.file.clone();
                    self.stage = Stage::ReadingProfile;
                    let args = strings4("config", "-f", file.as_str(), "--list");
                    Request::Git { args, interactive: false, perform: true }
                }
            },
            Phase::Apply => {
                proof {
                    self.switched = Ghost(true);
                }
                let notice = String::from_str("Switched to profile '").concat(
                    self.profile_id.as_str(),
                ).concat("'");
                self.notices.push(notice);
                self.stage = Stage::CheckingDirt;
                Request::ReadLocalConfig
            },
        }
    }

    /// Asks to inspect the working directory and the profile file.
    fn inspect(&mut self) -> (r: Request)
        requires
            old(self).inv(),
            old(self).issued@ == Seq::<OpView>::empty(),
            !old(self).switched@,
        ensures
            final(self).wf(),
            final(self).asks(r),
            old(self).same_run(*final(self)),
            final(self).issued == old(self).issued,
            !final(self).switched@,
            final(self).effective == old(self).effective,
            final(self).profile_dir == old(self).profile_dir,
            final(self).values == old(self).values,
            final(self).profile == old(self).profile,
            !(r is Finish) ==> final(self).notices == old(self).notices,
            r is Finish ==> r->Finish_notices@ == old(self).notices@,
            old(self).profile_dir is Ok ==> final(self).stage is Inspecting && final(self).file@
                == spec_profile_file(old(self).dir_view(), old(self).profile_id@),
            old(self).profile_dir is Err ==> r is Finish && r->Finish_outcome is Err,
    {
        let file = match &self.profile_dir {
            Ok(dir) => Some(profile_file(dir.as_str(), self.profile_id.as_str())),
            Err(_) => None,
        };
        match file {
            Some(f) => {
                self.file = f.clone();
                self.stage = Stage::Inspecting;
                Request::Inspect { profile_file: f }
            },
            None => self.finish(
                Err(NajError::Io { context: String::from_str("could not find home directory") }),
            ),
        }
    }

    fn on_inspected(&mut self, repository: bool, profile_exists: bool, current_dir: Option<String>) -> (r:
        Request)
        requires
            old(self).wf(),
            old(self).stage is Inspecting,
        ensures
            final(self).wf(),
            final(self).asks(r),
            old(self).same_run(*final(self)),
            !(r is Finish) ==> old(self).precedes(*final(self)),
            final(self).issued@ == old(self).issued@ || (final(self).issued@ == old(self).issued@.push(
                final(self).issued@.last(),
            ) && final(self).stage is Editing),
            final(self).switched@ ==> final(self).stage is CheckingDirt,
            final(self).effective == old(self).effective,
            final(self).values == old(self).values,
            final(self).profile == old(self).profile,
            final(self).profile_dir == old(self).profile_dir,
            !(final(self).stage is CheckingDirt) && !(r is Finish) ==> final(self).notices
                == old(self).notices,
            r is Finish ==> r->Finish_notices@ == old(self).notices@,
            final(self).file@ == if repository && profile_exists && !is_prefix("/"@, old(self).file@)
                && current_dir is Some {
                spec_absolute(current_dir->0@, old(self).file@)
            } else {
                old(self).file@
            },
            !repository && !(old(self).action is Setup) ==> r == (Request::Finish {
                outcome: Err(NajError::NotARepository),
                notices: r->Finish_notices,
            }),
            !repository && old(self).action is Setup ==> r == (Request::Finish {
                outcome: Ok(()),
                notices: r->Finish_notices,
            }),
            repository && !profile_exists ==> r is Finish && r->Finish_outcome is Err
                && r->Finish_outcome->Err_0 is ProfileNotFound,
            repository && profile_exists && !is_prefix("/"@, old(self).file@) && current_dir is None
                ==> r is Finish && r->Finish_outcome is Err && r->Finish_outcome->Err_0 is Io,
            repository && profile_exists && (is_prefix("/"@, old(self).file@) || current_dir is Some)
                ==> !(r is Finish),
    {
        if !repository {
            if self.action == Action::Setup {
                return self.finish(Ok(()));
            }
            return self.finish(Err(NajError::NotARepository));
        }
        if !profile_exists {
            let id = self.profile_id.clone();
            let path = self.file.clone();
            return self.finish(Err(NajError::ProfileNotFound { id, path }));
        }
        if !starts_with(self.file.as_str(), "/") {
            match current_dir {
                Some(cwd) => {
                    self.file = absolute(cwd.as_str(), self.file.as_str());
                },
                None => {
                    return self.finish(
                        Err(
                            NajError::Io {
                                context: String::from_str("could not determine the working directory"),
                            },
                        ),
                    );
                },
            }
        }
        if self.action == Action::Exec {
            let file = self.file.clone();
            self.stage = Stage::ReadingForExec;
            let args = strings4("config", "-f", file.as_str(), "--list");
            return Request::Git { args, interactive: false, perform: true };
        }
        let ops = sanitize_ops(self.effective);
        self.stage = Stage::Editing { phase: Phase::Purge, ops, next: 0 };
        proof {
            assert(op_views(ops@).take(0) =~= Seq::<OpView>::empty());
        }
        self.advance()
    }

    #[verifier::rlimit(60)]
    fn on_git_done(&mut self, code: Option<i32>, stdout: &str, stderr: &str) -> (r: Request)
        requires
            old(self).wf(),
        ensures
            final(self).wf(),
            final(self).asks(r),
            old(self).same_run(*final(self)),
            !(r is Finish) ==> old(self).precedes(*final(self)),
            final(self).issued@ == old(self).issued@ || (final(self).issued@ == old(self).issued@.push(
                final(self).issued@.last(),
            ) && final(self).stage is Editing),
            final(self).switched@ ==> old(self).switched@ || final(self).stage is CheckingDirt,
            final(self).effective == old(self).effective,
            final(self).file == old(self).file,
            final(self).profile_dir == old(self).profile_dir,
            final(self).values@ == if old(self).stage is Listing {
                if code == Some(0i32) {
                    spec_parse_values(stdout@)
                } else {
                    Seq::empty()
                }
            } else {
                old(self).values@
            },
            final(self).profile@ == if (old(self).stage is ReadingProfile && code == Some(0i32)) || (
            old(self).stage is ReadingForExec && code == Some(0i32)) {
                spec_parse_entries(spec_lines(stdout@))
            } else if old(self).stage is ReadingForExec {
                Seq::empty()
            } else {
                old(self).profile@
            },
            !(final(self).stage is CheckingDirt) && !(r is Finish) ==> final(self).notices
                == old(self).notices,
            r is Finish ==> r->Finish_notices@ == old(self).notices@,
            r is Finish && r->Finish_outcome is Err && r->Finish_outcome->Err_0 is ExternalTool ==> (
            r->Finish_outcome->Err_0->ExternalTool_code == code
                && r->Finish_outcome->Err_0->ExternalTool_stderr@ == spec_trim(stderr@)),
            old(self).stage is Editing ==> (r is Finish <==> spec_failed(
                spec_tolerance(old(self).issued@.last()),
                code,
                stderr@,
            )) && (r is Finish ==> r->Finish_outcome is Err && r->Finish_outcome->Err_0 is ExternalTool
                && r->Finish_outcome->Err_0->ExternalTool_context@ == spec_edit_context(old(self).issued@.last())),
            old(self).stage is Listing ==> !(r is Finish),
            old(self).stage is ReadingProfile ==> (r is Finish <==> code != Some(0i32)) && (r is Finish
                ==> r->Finish_outcome is Err),
            old(self).stage is ReadingForExec ==> final(self).stage is Executing,
            old(self).stage is Executing ==> r is Finish && (r->Finish_outcome is Ok <==> code == Some(
                0i32,
            )),
            old(self).stage is Creating ==> (code == Some(0i32) ==> final(self).stage is Entering) && (
            code != Some(0i32) ==> r is Finish && r->Finish_outcome is Err),
            !answers(old(self).stage, Event::GitDone { code, stdout: arbitrary(), stderr: arbitrary() })
                ==> r is Finish && r->Finish_outcome is Err,
    {
        let mut stage = Stage::Finished;
        std::mem::swap(&mut stage, &mut self.stage);
        match stage {
            Stage::Creating => {
                if failed(Tolerance::Strict, code, stderr) {
                    return self.finish(
                        Err(
                            NajError::ExternalTool {
                                context: String::from_str("git"),
                                code,
                                stderr: trim(stderr),
                            },
                        ),
                    );
                }
                let path = setup_dir(&self.args);
                self.stage = Stage::Entering;
                Request::Enter { path }
            },
            Stage::Editing { phase, ops, next } => {
                proof {
                    let a = spec_sanitize_ops(self.effective);
                    let b = spec_stale_ops(self.values@, self.dir_view());
                    let t = op_views(ops@).take(next as int);
                    assert(t.last() == ops@[next - 1]@);
                    assert((a + t).last() == t.last());
                    assert((a + b + t).last() == t.last());
                }
                let t = tolerance(&ops[next - 1]);
                if failed(t, code, stderr) {
                    let words = join_words(&op_args(&ops[next - 1]));
                    let context = String::from_str("git ").concat(words.as_str());
                    self.stage = Stage::Editing { phase, ops, next };
                    return self.finish(
                        Err(NajError::ExternalTool { context, code, stderr: trim(stderr) }),
                    );
                }
                self.stage = Stage::Editing { phase, ops, next };
                self.advance()
            },
            Stage::Listing => {
                let values = if code == Some(0i32) {
                    parse_values(stdout)
                } else {
                    let none: Vec<String> = Vec::new();
                    proof {
                        assert(views(none@) =~= Seq::<Seq<char>>::empty());
                    }
                    none
                };
                let dir = match &self.profile_dir {
                    Ok(d) => d.clone(),
                    Err(_) => String::new(),
                };
                proof {
                    self.values = Ghost(views(values@));
                }
                let ops = stale_include_ops(&values, dir.as_str());
                self.stage = Stage::Editing { phase: Phase::Unlink, ops, next: 0 };
                proof {
                    assert(spec_sanitize_ops(self.effective) + op_views(ops@).take(0)
                        =~= spec_sanitize_ops(self.effective));
                }
                self.advance()
            },
            Stage::ReadingProfile => {
                if code != Some(0i32) {
                    self.stage = Stage::ReadingProfile;
                    let words = strings4("config", "-f", self.file.as_str(), "--list");
                    let context = String::from_str("git ").concat(join_words(&words).as_str());
                    return self.finish(
                        Err(NajError::ExternalTool { context, code, stderr: trim(stderr) }),
                    );
                }
                let entries = parse_entries(stdout);
                proof {
                    self.profile = Ghost(entry_views(entries@));
                }
                let ops = apply_profile_ops(self.effective, self.file.as_str(), &entries);
                self.stage = Stage::Editing { phase: Phase::Apply, ops, next: 0 };
                proof {
                    let a = spec_sanitize_ops(self.effective);
                    let b = spec_stale_ops(self.values@, self.dir_view());
                    assert(a + b + op_views(ops@).take(0) =~= a + b);
                }
                self.advance()
            },
            Stage::ReadingForExec => {
                let entries = if code == Some(0i32) {
                    parse_entries(stdout)
                } else {
                    let none: Vec<Entry> = Vec::new();
                    proof {
                        assert(entry_views(none@) =~= Seq::<EntryView>::empty());
                    }
                    none
                };
                proof {
                    self.profile = Ghost(entry_views(entries@));
                }
                let args = exec_args(self.file.as_str(), &entries, &self.args);
                self.stage = Stage::Executing;
                Request::Git { args, interactive: true, perform: !self.dry_run }
            },
            Stage::Executing => {
                self.stage = Stage::Executing;
                if failed(Tolerance::Strict, code, stderr) {
                    return self.finish(
                        Err(
                            NajError::ExternalTool {
                                context: String::from_str("git"),
                                code,
                                stderr: trim(stderr),
                            },
                        ),
                    );
                }
                self.finish(Ok(()))
            },
            other => {
                self.stage = other;
                self.finish(
                    Err(NajError::Io { context: String::from_str("unexpected answer from git") }),
                )
            },
        }
    }
}

impl Session {
    /// Takes the next outcome from the host and decides what to ask for
    /// next.
    ///
    /// The request always fits the stage the session moves to (`asks`).
    /// Every step that does not end the run brings the session closer to
    /// its end (`precedes`), so a run ends after finitely many steps. Which
    /// outcomes end it, and how, is stated for each stage below: git's
    /// success always lets a run go on. The edits of the local
    /// configuration are recorded in `issued`, each exactly as git receives
    /// it; a switch that ends well has issued the purge its strategy calls
    /// for, then the removal of the stale links that git listed, then the
    /// application of the profile. A one-shot command edits nothing.
    #[verifier::rlimit(60)]
    pub fn step(&mut self, event: Event) -> (r: Request)
        requires
            old(self).wf(),
        ensures
            final(self).wf(),
            final(self).asks(r),
            old(self).same_run(*final(self)),
            r is Finish <==> final(self).stage is Finished,
            !(r is Finish) ==> old(self).precedes(*final(self)),
            final(self).issued@ == old(self).issued@ || (final(self).issued@ == old(self).issued@.push(
                final(self).issued@.last(),
            ) && r is Git && views(r->Git_args@) == spec_op_args(final(self).issued@.last())
                && r->Git_perform == !old(self).dry_run),
            r is Finish && final(self).switched@ ==> final(self).issued@ == final(self).switch_edits(),
            r is Finish && r->Finish_outcome is Ok && final(self).action is Switch
                ==> final(self).switched@,
            final(self).action is Exec ==> final(self).issued@ == Seq::<OpView>::empty(),
            !answers(old(self).stage, event) ==> r is Finish && r->Finish_outcome is Err,
            // what a step carries over
            final(self).profile_dir == old(self).profile_dir,
            !(old(self).stage is Entering) ==> final(self).effective == old(self).effective,
            !(old(self).stage is Start || old(self).stage is Entering || old(self).stage is Inspecting)
                ==> final(self).file == old(self).file,
            !(old(self).stage is Listing) ==> final(self).values == old(self).values,
            !(old(self).stage is ReadingProfile || old(self).stage is ReadingForExec)
                ==> final(self).profile == old(self).profile,
            // what git reported
            old(self).stage is Listing ==> (event matches Event::GitDone { code, stdout, .. }
                ==> final(self).values@ == if code == Some(0i32) {
                spec_parse_values(stdout@)
            } else {
                Seq::empty()
            }),
            old(self).stage is ReadingProfile ==> (event matches Event::GitDone { code, stdout, .. }
                ==> final(self).profile@ == if code == Some(0i32) {
                spec_parse_entries(spec_lines(stdout@))
            } else {
                old(self).profile@
            }),
            old(self).stage is ReadingForExec ==> (event matches Event::GitDone { code, stdout, .. }
                ==> final(self).profile@ == if code == Some(0i32) {
                spec_parse_entries(spec_lines(stdout@))
            } else {
                Seq::empty()
            }),
            event matches Event::GitDone { code, stderr, .. } ==> (r is Finish && r->Finish_outcome is Err
                && r->Finish_outcome->Err_0 is ExternalTool ==> r->Finish_outcome->Err_0->ExternalTool_code
                == code && r->Finish_outcome->Err_0->ExternalTool_stderr@ == spec_trim(stderr@)),
            // starting
            old(self).stage is Start && event is Start ==> (old(self).action is Setup
                ==> final(self).stage is Creating) && (!(old(self).action is Setup)
                && old(self).profile_dir is Ok ==> final(self).stage is Inspecting && final(self).file@ == spec_profile_file(old(self).dir_view(), old(self).profile_id@)) && (!(old(self).action is Setup) && old(self).profile_dir is Err ==> r is Finish
                && r->Finish_outcome is Err),
            // validating
            old(self).stage is Inspecting ==> (event matches Event::Inspected {
                repository,
                profile_exists,
                current_dir,
            } ==> {
                &&& !repository && !(old(self).action is Setup) ==> r == (Request::Finish {
                    outcome: Err(NajError::NotARepository),
                    notices: r->Finish_notices,
                })
                &&& !repository && old(self).action is Setup ==> r == (Request::Finish {
                    outcome: Ok(()),
                    notices: r->Finish_notices,
                })
                &&& repository && !profile_exists ==> r is Finish && r->Finish_outcome is Err
                    && r->Finish_outcome->Err_0 is ProfileNotFound
                &&& repository && profile_exists && !is_prefix("/"@, old(self).file@)
                    && current_dir is None ==> r is Finish && r->Finish_outcome is Err
                    && r->Finish_outcome->Err_0 is Io
                &&& repository && profile_exists && (is_prefix("/"@, old(self).file@)
                    || current_dir is Some) ==> !(r is Finish)
                &&& final(self).file@ == if repository && profile_exists && !is_prefix(
                    "/"@,
                    old(self).file@,
                ) && current_dir is Some {
                    spec_absolute(current_dir->0@, old(self).file@)
                } else {
                    old(self).file@
                }
            }),
            // git's answers
            old(self).stage is Editing ==> (event matches Event::GitDone { code, stderr, .. } ==> (
            r is Finish <==> spec_failed(spec_tolerance(old(self).issued@.last()), code, stderr@))
                && (r is Finish ==> r->Finish_outcome is Err && r->Finish_outcome->Err_0 is ExternalTool
                && r->Finish_outcome->Err_0->ExternalTool_context@ == spec_edit_context(old(self).issued@.last()))),
            old(self).stage is Listing && event is GitDone ==> !(r is Finish),
            old(self).stage is ReadingProfile ==> (event matches Event::GitDone { code, .. } ==> (
            r is Finish <==> code != Some(0i32)) && (r is Finish ==> r->Finish_outcome is Err)),
            old(self).stage is ReadingForExec && event is GitDone ==> final(self).stage is Executing,
            old(self).stage is Executing ==> (event matches Event::GitDone { code, .. } ==> r is Finish
                && (r->Finish_outcome is Ok <==> code == Some(0i32))),
            old(self).stage is Creating ==> (event matches Event::GitDone { code, .. } ==> (code
                == Some(0i32) ==> final(self).stage is Entering) && (code != Some(0i32) ==> r is Finish
                && r->Finish_outcome is Err)),
            // after creating a repository
            old(self).stage is Entering ==> (event matches Event::Entered { ok } ==> (!ok ==> r == (
            Request::Finish { outcome: Ok(()), notices: r->Finish_notices })) && (ok
                ==> final(self).effective == spec_resolve(old(self).base, true) && (old(self).profile_dir is Ok ==> final(self).stage is Inspecting && final(self).file@
                == spec_profile_file(old(self).dir_view(), old(self).profile_id@)))),
            // the closing check
            old(self).stage is CheckingDirt ==> old(self).notices@.len() > 0
                && old(self).notices@.last()@ == spec_confirmation(old(self).profile_id@),
            old(self).stage is CheckingDirt ==> (event matches Event::LocalConfigRead { content }
                ==> r is Finish && r->Finish_notices@.take(old(self).notices@.len() as int)
                == old(self).notices@ && (content is Some && spec_is_dirty(
                content->0@,
                old(self).effective,
            ) ==> r->Finish_notices@.last()@ == spec_dirt_warning())),
            old(self).stage is CheckingDirt ==> (event matches Event::LocalConfigRead { content }
                ==> r is Finish && r->Finish_outcome is Ok && r->Finish_notices.len()
                == old(self).notices.len() + if content is Some && spec_is_dirty(
                content->0@,
                old(self).effective,
            ) {
                1int
            } else {
                0int
            }),
    {
        match event {
            Event::Start => {
                if matches!(self.stage, Stage::Start) {
                    if self.action == Action::Setup {
                        self.stage = Stage::Creating;
                        let args = copy_strings(&self.args);
                        return Request::Git { args, interactive: true, perform: !self.dry_run };
                    }
                    return self.inspect();
                }
                self.unexpected()
            },
            Event::Inspected { repository, profile_exists, current_dir } => {
                if matches!(self.stage, Stage::Inspecting) {
                    return self.on_inspected(repository, profile_exists, current_dir);
                }
                self.unexpected()
            },
            Event::GitDone { code, stdout, stderr } => {
                self.on_git_done(code, stdout.as_str(), stderr.as_str())
            },
            Event::Entered { ok } => {
                if matches!(self.stage, Stage::Entering) {
                    if !ok {
                        return self.finish(Ok(()));
                    }
                    self.effective = self.base.resolve(true);
                    return self.inspect();
                }
                self.unexpected()
            },
            Event::LocalConfigRead { content } => {
                if matches!(self.stage, Stage::CheckingDirt) {
                    self.stage = Stage::Finished;
                    match content {
                        Some(text) => {
                            if is_dirty_config(text.as_str(), self.effective) {
                                self.notices.push(
                                    String::from_str(
                                        "WARNING: the local configuration still holds identity or signing settings that may override the profile",
                                    ),
                                );
                            }
                        },
                        None => {},
                    }
                    return self.finish(Ok(()));
                }
                self.unexpected()
            },
        }
    }

    /// Ends a run that received an outcome it did not ask for.
    fn unexpected(&mut self) -> (r: Request)
        requires
            old(self).inv(),
        ensures
            final(self).wf(),
            final(self).asks(r),
            final(self).stage is Finished,
            r is Finish && r->Finish_outcome is Err,
            final(self).issued == old(self).issued,
            final(self).switched == old(self).switched,
            old(self).same_run(*final(self)),
            old(self).same_facts(*final(self)),
            r->Finish_notices@ == old(self).notices@,
    {
        self.finish(Err(NajError::Io { context: String::from_str("unexpected outcome") }))
    }
}

} // verus!
