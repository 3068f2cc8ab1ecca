//! Installing, updating and removing packages: the client handles one package at a time, so an
//! operation on several is a run of commands.

use crate::app_info::AppInfo;
use crate::backend::command::Request;
use crate::backend::json_types::{answer, answered, InstallResult, RemoveResult, Reply};
use std::sync::Arc;
use vstd::prelude::*;
use vstd::string::*;

verus! {

/// What is to be done with some packages.
#[derive(Clone, Copy, Debug, PartialEq, Eq, Structural)]
pub enum OperationKind {
    Install,
    Uninstall,
    /// To install the build that the lock pins.
    Update,
    RepositoryAdd,
    RepositoryRemove,
}

/// An operation that was asked for.
#[derive(Debug)]
pub struct Operation {
    pub kind: OperationKind,
    /// The components that it is about.
    pub infos: Vec<Arc<AppInfo>>,
}

/// The packages that carry one component.
pub open spec fn carriers() -> spec_fn(Arc<AppInfo>) -> Seq<Seq<char>> {
    |info: Arc<AppInfo>| info@.pkgnames
}

/// The packages of an operation: those that carry its components, in the order of the components.
pub open spec fn operation_names(op: Operation) -> Seq<Seq<char>> {
    op.infos@.flat_map(carriers())
}

/// The packages of an operation.
pub fn op_pkg_names(op: &Operation) -> (r: Vec<String>)
    ensures
        r.deep_view() == operation_names(*op),
{
    let ghost infos = op.infos@;
    let mut names: Vec<String> = Vec::new();
    let mut i: usize = 0;
    assert(names.deep_view() =~= infos.take(0).flat_map(carriers()));
    while i < op.infos.len()
        invariant
            i <= infos.len(),
            infos == op.infos@,
            names.deep_view() == infos.take(i as int).flat_map(carriers()),
        decreases infos.len() - i,
    {
        let info = &op.infos[i];
        let ghost before = names.deep_view();
        let ghost more = info@.pkgnames;
        let mut j: usize = 0;
        assert(before =~= before + more.take(0));
        while j < info.pkgnames.len()
            invariant
                j <= info.pkgnames@.len(),
                more == info.pkgnames.deep_view(),
                names.deep_view() == before + more.take(j as int),
            decreases info.pkgnames@.len() - j,
        {
            let ghost shorter = names@;
            names.push(info.pkgnames[j].clone());
            assert(names.deep_view() =~= shorter.map_values(|s: String| s.deep_view()).push(
                more[j as int],
            ));
            assert(before + more.take(j + 1) =~= (before + more.take(j as int)).push(
                more[j as int],
            ));
            j = j + 1;
        }
        proof {
            assert(more.take(j as int) =~= more);
            infos.lemma_flat_map_take_append(carriers(), i as int);
        }
        i = i + 1;
    }
    assert(infos.take(i as int) =~= infos);
    names
}

/// The end of the scale on which progress is told: percent.
pub const FULL_SCALE: u16 = 100;

/// A report on how far an operation has come. What it tells is `done / total * scale`.
#[derive(Clone, Copy, Debug, PartialEq, Eq, Structural)]
pub struct Progress {
    /// The number of packages that are done.
    pub done: usize,
    /// The number of packages in all; it is not zero.
    pub total: usize,
    /// What is told where all are done.
    pub scale: u16,
}

/// The contents of a [`Progress`].
#[verifier::ext_equal]
pub struct ReportView {
    pub done: int,
    pub total: int,
    pub scale: int,
}

impl View for Progress {
    type V = ReportView;

    open spec fn view(&self) -> ReportView {
        ReportView { done: self.done as int, total: self.total as int, scale: self.scale as int }
    }
}

impl ReportView {
    /// `total` times what is told, which makes it a whole number.
    pub open spec fn told(self) -> int {
        self.done * self.scale
    }
}

/// What an operation does next.
#[derive(Debug)]
pub enum OperationStep {
    /// The client is to be run.
    Run(Request),
    /// The operation is refused.
    Refuse(String),
    /// The operation is complete, and this is its last report.
    Finish(Progress),
}

/// The contents of an [`OperationStep`].
#[verifier::ext_equal]
pub enum StepView {
    Run(Seq<Seq<char>>),
    Refuse(Seq<char>),
    Finish(ReportView),
}

impl View for OperationStep {
    type V = StepView;

    open spec fn view(&self) -> StepView {
        match self {
            OperationStep::Run(request) => StepView::Run(request@),
            OperationStep::Refuse(error) => StepView::Refuse(error@),
            OperationStep::Finish(report) => StepView::Finish(report@),
        }
    }
}

/// An operation under way.
#[derive(Debug)]
pub struct OperationRun {
    kind: OperationKind,
    names: Vec<String>,
    done: usize,
}

/// The contents of an [`OperationRun`].
#[verifier::ext_equal]
pub struct RunView {
    pub kind: OperationKind,
    /// The packages, in the order in which they are handled.
    pub names: Seq<Seq<char>>,
    /// The number of packages that are done.
    pub done: int,
}

impl View for OperationRun {
    type V = RunView;

    closed spec fn view(&self) -> RunView {
        RunView { kind: self.kind, names: self.names.deep_view(), done: self.done as int }
    }
}

impl RunView {
    /// There is something to do, and no more is done than there is.
    pub open spec fn wf(self) -> bool {
        0 <= self.done <= self.names.len() && self.names.len() > 0
    }

    /// The operation installs packages.
    pub open spec fn installs(self) -> bool {
        self.kind == OperationKind::Install || self.kind == OperationKind::Update
    }

    /// The operation removes packages.
    pub open spec fn removes(self) -> bool {
        self.kind == OperationKind::Uninstall
    }

    /// The report on how far the operation has come, in percent.
    pub open spec fn report(self) -> ReportView {
        ReportView {
            done: self.done,
            total: self.names.len() as int,
            scale: FULL_SCALE as int,
        }
    }

    /// What the client is asked to do with the package at position `i`.
    pub open spec fn request(self, i: int) -> Seq<Seq<char>> {
        if self.installs() {
            seq!["install"@, self.names[i]]
        } else {
            seq!["remove"@, self.names[i]]
        }
    }

    /// What comes next. Channels are not changed by an operation.
    pub open spec fn next(self) -> StepView {
        if self.done >= self.names.len() {
            StepView::Finish(self.report())
        } else if self.installs() || self.removes() {
            StepView::Run(self.request(self.done))
        } else {
            StepView::Refuse("promin: управление каналами через config.json, не операцией"@)
        }
    }

    /// The same operation with one more package done.
    pub open spec fn advanced(self) -> RunView {
        RunView { done: self.done + 1, ..self }
    }
}

/// The error of a command that was to `verb` the package `name`, where its answer says whether it
/// went well and perhaps why not.
pub open spec fn failure(
    verb: Seq<char>,
    name: Seq<char>,
    ok: bool,
    error: Option<String>,
) -> Option<Seq<char>> {
    if ok {
        None
    } else {
        match error {
            Some(e) => Some(e@),
            None => Some(verb + " "@ + name + " не удался"@),
        }
    }
}

/// The error of an installation.
pub open spec fn install_failure(
    name: Seq<char>,
    run: Result<Reply<InstallResult>, String>,
) -> Option<Seq<char>> {
    match answered(run) {
        Ok(r) => failure("install"@, name, r.ok, r.error),
        Err(e) => Some(e),
    }
}

/// The error of a removal.
pub open spec fn remove_failure(
    name: Seq<char>,
    run: Result<Reply<RemoveResult>, String>,
) -> Option<Seq<char>> {
    match answered(run) {
        Ok(r) => failure("remove"@, name, r.ok, r.error),
        Err(e) => Some(e),
    }
}

/// What is left of an operation after a command: an error ends it, else one more package is done.
pub open spec fn after_command(
    before: RunView,
    error: Option<Seq<char>>,
    after: RunView,
    r: Result<Progress, String>,
) -> bool {
    match error {
        Some(e) => after == before && (r matches Err(text) && text@ == e),
        None => after == before.advanced() && (r matches Ok(progress) && progress@
            == after.report()),
    }
}

impl OperationRun {
    /// There is something to do, and no more is done than there is.
    #[verifier::type_invariant]
    closed spec fn inv(&self) -> bool {
        self@.wf()
    }

    /// Begins an operation. `shown_ids` tells which components it is about; it is used where none
    /// of them is carried by a package.
    pub fn start(op: &Operation, shown_ids: &str) -> (r: Result<Self, String>)
        ensures
            operation_names(*op).len() == 0 ==> (r matches Err(e) && e@ == shown_ids@
                + ": нет имени промин-пакета"@),
            operation_names(*op).len() > 0 ==> (r matches Ok(run) && run@.wf() && run@ == (
            RunView { kind: op.kind, names: operation_names(*op), done: 0 })),
    {
        let names = op_pkg_names(op);
        assert(names.deep_view().len() == names@.len());
        if names.is_empty() {
            return Err(shown_ids.to_string().concat(": нет имени промин-пакета"));
        }
        Ok(OperationRun { kind: op.kind, names, done: 0 })
    }

    /// The report on how far the operation has come.
    pub fn progress(&self) -> (r: Progress)
        ensures
            self@.wf(),
            r@ == self@.report(),
    {
        proof {
            use_type_invariant(self);
        }
        Progress { done: self.done, total: self.names.len(), scale: FULL_SCALE }
    }

    /// What comes next.
    pub fn next(&self) -> (r: OperationStep)
        ensures
            self@.wf(),
            r@ == self@.next(),
    {
        proof {
            use_type_invariant(self);
        }
        if self.done >= self.names.len() {
            return OperationStep::Finish(self.progress());
        }
        let name = self.names[self.done].clone();
        match self.kind {
            OperationKind::Install | OperationKind::Update => OperationStep::Run(
                Request::Install { name },
            ),
            OperationKind::Uninstall => OperationStep::Run(Request::Remove { name }),
            OperationKind::RepositoryAdd | OperationKind::RepositoryRemove => OperationStep::Refuse(
                "promin: управление каналами через config.json, не операцией".to_string(),
            ),
        }
    }

    /// Takes note of the answer to the installation that came next.
    pub fn installed(&mut self, run: Result<Reply<InstallResult>, String>) -> (r: Result<
        Progress,
        String,
    >)
        requires
            old(self)@.installs(),
            old(self)@.done < old(self)@.names.len(),
        ensures
            final(self)@.wf(),
            after_command(
                old(self)@,
                install_failure(old(self)@.names[old(self)@.done], run),
                final(self)@,
                r,
            ),
    {
        proof {
            use_type_invariant(&*self);
        }
        match answer(run) {
            Ok(outcome) => {
                if outcome.ok {
                    Ok(self.advance())
                } else {
                    Err(self.error_of("install", outcome.error))
                }
            },
            Err(e) => Err(e),
        }
    }

    /// Takes note of the answer to the removal that came next.
    pub fn removed(&mut self, run: Result<Reply<RemoveResult>, String>) -> (r: Result<
        Progress,
        String,
    >)
        requires
            old(self)@.removes(),
            old(self)@.done < old(self)@.names.len(),
        ensures
            final(self)@.wf(),
            after_command(
                old(self)@,
                remove_failure(old(self)@.names[old(self)@.done], run),
                final(self)@,
                r,
            ),
    {
        proof {
            use_type_invariant(&*self);
        }
        match answer(run) {
            Ok(outcome) => {
                if outcome.ok {
                    Ok(self.advance())
                } else {
                    Err(self.error_of("remove", outcome.error))
                }
            },
            Err(e) => Err(e),
        }
    }

    /// Takes note that one more package is done.
    fn advance(&mut self) -> (r: Progress)
        requires
            old(self)@.done < old(self)@.names.len(),
        ensures
            final(self)@.wf(),
            final(self)@ == old(self)@.advanced(),
            r@ == final(self)@.report(),
    {
        proof {
            use_type_invariant(&*self);
        }
        let total: usize = self.names.len();
        self.done = self.done + 1;
        Progress { done: self.done, total, scale: FULL_SCALE }
    }

    /// The error of a command that did not go well with the package that came next.
    fn error_of(&self, verb: &str, error: Option<String>) -> (r: String)
        requires
            self@.done < self@.names.len(),
        ensures
            failure(verb@, self@.names[self@.done], false, error) == Some(r@),
    {
        match error {
            Some(e) => e,
            None => verb.to_string().concat(" ").concat(self.names[self.done].as_str()).concat(
                " не удался",
            ),
        }
    }
}

} // verus!
