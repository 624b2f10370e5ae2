//! Whether a package may be deleted, and what is shown and done when it is its turn.

use crate::ident::{any_of_satisfies, any_satisfies, core_hab, idents, Ident, PackageIdent};
use vstd::prelude::*;

verus! {

/// Whether packages are deleted or only listed.
#[derive(Clone, Copy, Debug, PartialEq, Eq, Structural)]
pub enum ExecutionStrategy {
    /// Show what would be deleted.
    DryRun,
    /// Delete.
    Run,
}

/// What a status line is about.
#[derive(Clone, Copy, Debug, PartialEq, Eq, Structural)]
pub enum Status {
    Deleting,
    Determining,
    DryRunDeleting,
    Found,
    Skipping,
}

/// One thing to do while packages are uninstalled. Effects are carried out in order, and the
/// first one that fails ends the command with its error.
#[derive(Debug, PartialEq, Eq)]
pub enum Effect {
    /// Announce the work on a package.
    Begin(String),
    /// Show a status line.
    Status(Status, String),
    /// Show a warning.
    Warn(String),
    /// Announce that the work on a package is over.
    End(String),
    /// Delete the package from disk.
    Delete(PackageIdent),
    /// Take the package out of the package graph.
    RemoveFromGraph(PackageIdent),
}

/// An effect, as mathematical values.
pub ghost enum EffectView {
    Begin(Seq<char>),
    Status(Status, Seq<char>),
    Warn(Seq<char>),
    End(Seq<char>),
    Delete(Ident),
    RemoveFromGraph(Ident),
}

impl View for Effect {
    type V = EffectView;

    open spec fn view(&self) -> EffectView {
        match *self {
            Effect::Begin(text) => EffectView::Begin(text@),
            Effect::Status(status, text) => EffectView::Status(status, text@),
            Effect::Warn(text) => EffectView::Warn(text@),
            Effect::End(text) => EffectView::End(text@),
            Effect::Delete(ident) => EffectView::Delete(ident@),
            Effect::RemoveFromGraph(ident) => EffectView::RemoveFromGraph(ident@),
        }
    }
}

/// What a list of effects says.
pub open spec fn effects(list: Seq<Effect>) -> Seq<EffectView> {
    list.map_values(|e: Effect| e@)
}

/// Whether a loaded package is spared.
#[derive(Clone, Copy, Debug)]
pub enum UninstallSafetyImpl<'a> {
    /// Spare a package that one of these loaded services satisfies.
    SkipIfLoaded(&'a [PackageIdent]),
    /// Spare none.
    Force,
}

/// Whether a loaded package is spared, as mathematical values.
pub ghost enum SafetyView {
    SkipIfLoaded(Seq<Ident>),
    Force,
}

impl SafetyView {
    /// The package is loaded, and loaded packages are spared.
    pub open spec fn should_skip(self, ident: Ident) -> bool {
        match self {
            SafetyView::SkipIfLoaded(services) => any_satisfies(services, ident),
            SafetyView::Force => false,
        }
    }
}

impl<'a> View for UninstallSafetyImpl<'a> {
    type V = SafetyView;

    open spec fn view(&self) -> SafetyView {
        match *self {
            UninstallSafetyImpl::SkipIfLoaded(services) => SafetyView::SkipIfLoaded(
                idents(services@),
            ),
            UninstallSafetyImpl::Force => SafetyView::Force,
        }
    }
}

impl<'a> UninstallSafetyImpl<'a> {
    /// Whether the package is to be spared because it is loaded.
    pub fn should_skip(&self, ident: &PackageIdent) -> (skip: bool)
        ensures
            skip == self@.should_skip(ident@),
    {
        match self {
            UninstallSafetyImpl::SkipIfLoaded(services) => any_of_satisfies(services, ident),
            UninstallSafetyImpl::Force => false,
        }
    }
}

/// What becomes of a package whose turn has come.
#[derive(Clone, Copy, Debug, PartialEq, Eq, Structural)]
pub enum Verdict {
    /// It is the `hab` command itself, which is never uninstalled.
    IsHab,
    /// It is loaded by the supervisor.
    IsLoaded,
    /// The user excluded it.
    IsExcluded,
    /// It would be deleted.
    WouldDelete,
    /// It is deleted.
    Delete,
}

/// What becomes of a package: the first reason to spare it wins, and a dry run deletes nothing.
pub open spec fn verdict(
    ident: Ident,
    strategy: ExecutionStrategy,
    excludes: Seq<Ident>,
    safety: SafetyView,
) -> Verdict {
    if ident.satisfies(core_hab()) {
        Verdict::IsHab
    } else if safety.should_skip(ident) {
        Verdict::IsLoaded
    } else if any_satisfies(excludes, ident) {
        Verdict::IsExcluded
    } else if strategy == ExecutionStrategy::DryRun {
        Verdict::WouldDelete
    } else {
        Verdict::Delete
    }
}

/// What is shown of a verdict, and the deletion where it comes to that.
pub open spec fn verdict_effects(ident: Ident, verdict: Verdict) -> Seq<EffectView> {
    match verdict {
        Verdict::IsHab => seq![
            EffectView::Status(
                Status::Skipping,
                ident.text() + ". You can't uninstall core/hab"@,
            ),
        ],
        Verdict::IsLoaded => seq![
            EffectView::Status(
                Status::Skipping,
                ident.text() + ". It is currently loaded by the supervisor"@,
            ),
        ],
        Verdict::IsExcluded => seq![
            EffectView::Status(
                Status::Skipping,
                ident.text() + ". It is on the exclusion list"@,
            ),
        ],
        Verdict::WouldDelete => seq![EffectView::Status(Status::DryRunDeleting, ident.text())],
        Verdict::Delete => seq![
            EffectView::Status(Status::Deleting, ident.text()),
            EffectView::Delete(ident),
        ],
    }
}

/// The package stays, however packages are uninstalled: something other than a dry run spares it.
pub open spec fn spared(verdict: Verdict) -> bool {
    match verdict {
        Verdict::IsHab => true,
        Verdict::IsLoaded => true,
        Verdict::IsExcluded => true,
        Verdict::WouldDelete => false,
        Verdict::Delete => false,
    }
}

/// The effects of a package's turn.
#[derive(Debug, PartialEq, Eq)]
pub struct Deletion {
    pub effects: Vec<Effect>,
    /// They delete the package.
    pub deleted: bool,
    /// Something other than a dry run spares the package.
    pub spared: bool,
}

/// Decides whether a package is deleted from disk. `excludes` may be looser than the package's
/// own identifier: `core/redis` excludes every release of it.
pub fn maybe_delete(
    ident: &PackageIdent,
    strategy: ExecutionStrategy,
    excludes: &[PackageIdent],
    safety: UninstallSafetyImpl,
) -> (deletion: Deletion)
    ensures
        effects(deletion.effects@) == verdict_effects(
            ident@,
            verdict(ident@, strategy, idents(excludes@), safety@),
        ),
        deletion.deleted == (verdict(ident@, strategy, idents(excludes@), safety@)
            == Verdict::Delete),
        deletion.spared == spared(verdict(ident@, strategy, idents(excludes@), safety@)),
{
    let mut list: Vec<Effect> = Vec::new();
    let text = ident.to_string();
    let hab = PackageIdent::core_hab();
    let mut deleted = false;
    let mut spared = true;
    if ident.satisfies(&hab) {
        list.push(Effect::Status(Status::Skipping, text.concat(". You can't uninstall core/hab")));
    } else if safety.should_skip(ident) {
        list.push(
            Effect::Status(
                Status::Skipping,
                text.concat(". It is currently loaded by the supervisor"),
            ),
        );
    } else if any_of_satisfies(excludes, ident) {
        list.push(Effect::Status(Status::Skipping, text.concat(". It is on the exclusion list")));
    } else {
        spared = false;
        match strategy {
            ExecutionStrategy::DryRun => {
                list.push(Effect::Status(Status::DryRunDeleting, text));
            },
            ExecutionStrategy::Run => {
                list.push(Effect::Status(Status::Deleting, text));
                list.push(Effect::Delete(ident.clone()));
                deleted = true;
            },
        }
    }
    assert(effects(list@) =~= verdict_effects(
        ident@,
        verdict(ident@, strategy, idents(excludes@), safety@),
    ));
    Deletion { effects: list, deleted, spared }
}

/// A package is deleted exactly when this is no dry run and nothing spares it: it is not the
/// `hab` command, no loaded service that is to be spared satisfies it, and it is not excluded.
pub proof fn law_deleted_when_nothing_spares_it(
    ident: Ident,
    strategy: ExecutionStrategy,
    excludes: Seq<Ident>,
    safety: SafetyView,
)
    ensures
        verdict_effects(ident, verdict(ident, strategy, excludes, safety)).contains(
            EffectView::Delete(ident),
        ) == ({
            &&& strategy == ExecutionStrategy::Run
            &&& !ident.satisfies(core_hab())
            &&& !safety.should_skip(ident)
            &&& !any_satisfies(excludes, ident)
        }),
{
    let v = verdict(ident, strategy, excludes, safety);
    if v == Verdict::Delete {
        assert(verdict_effects(ident, v)[1] == EffectView::Delete(ident));
    }
}

/// The `hab` command is never deleted, however uninstalling is asked for.
pub proof fn law_hab_is_never_deleted(
    ident: Ident,
    strategy: ExecutionStrategy,
    excludes: Seq<Ident>,
    safety: SafetyView,
    deleted: Ident,
)
    requires
        ident.origin == core_hab().origin,
        ident.name == core_hab().name,
    ensures
        !verdict_effects(ident, verdict(ident, strategy, excludes, safety)).contains(
            EffectView::Delete(deleted),
        ),
{
}

} // verus!
