//! What the steps of an operation do.

use crate::app_info::AppInfo;
use crate::backend::json_types::{InstallResult, RemoveResult, Reply};
use crate::backend::operation::{
    after_command, carriers, install_failure, operation_names, remove_failure, Operation,
    OperationKind, Progress, RunView, StepView,
};
use crate::laws::answers::{is_meaning, law_meaning_of_what_is_printed, reports_failure};
use crate::laws::course;
use crate::laws::text::is_blank;
use std::sync::Arc;
use vstd::prelude::*;

verus! {

/// The packages of an operation on one component more are those of the operation without it, and
/// then those that carry that component. An operation on no component has none.
pub proof fn law_packages_of_an_operation(
    shorter: Operation,
    longer: Operation,
    info: Arc<AppInfo>,
)
    requires
        longer.infos@ == shorter.infos@.push(info),
    ensures
        operation_names(longer) == operation_names(shorter) + info.pkgnames.deep_view(),
        shorter.infos@.len() == 0 ==> operation_names(shorter) == Seq::<Seq<char>>::empty(),
{
    let infos = longer.infos@;
    let last = shorter.infos@.len() as int;
    infos.lemma_flat_map_take_append(carriers(), last);
    assert(infos.take(last) =~= shorter.infos@);
    assert(infos.take(last + 1) =~= infos);
    if last == 0 {
        assert(shorter.infos@.flat_map(carriers()) =~= Seq::<Seq<char>>::empty());
    }
}

/// The client is asked to install the next package of an installation or of an update, and to remove
/// the next one of a removal. An operation on channels is refused. Where no package is left, the
/// operation is complete, and all of its packages are reported as done.
pub proof fn law_next_step(run: RunView)
    requires
        0 <= run.done <= run.names.len(),
        run.names.len() > 0,
    ensures
        run.done == run.names.len() ==> run.next() is Finish && ({
            let last = run.next()->Finish_0;
            last.done == run.names.len() && last.total == run.names.len() && last.scale == 100
        }),
        run.done < run.names.len() ==> match run.kind {
            OperationKind::Install => run.next() == StepView::Run(
                seq!["install"@, run.names[run.done]],
            ),
            OperationKind::Update => run.next() == StepView::Run(
                seq!["install"@, run.names[run.done]],
            ),
            OperationKind::Uninstall => run.next() == StepView::Run(
                seq!["remove"@, run.names[run.done]],
            ),
            OperationKind::RepositoryAdd => run.next() == StepView::Refuse(
                "promin: управление каналами через config.json, не операцией"@,
            ),
            OperationKind::RepositoryRemove => run.next() == StepView::Refuse(
                "promin: управление каналами через config.json, не операцией"@,
            ),
        },
{
}

/// Installations and updates install packages, removals remove them, and operations on channels do
/// neither.
pub proof fn law_kinds_of_operations(run: RunView)
    ensures
        run.installs() <==> (run.kind == OperationKind::Install || run.kind
            == OperationKind::Update),
        run.removes() <==> run.kind == OperationKind::Uninstall,
{
}

/// The report tells how many packages are done, of how many, on a scale to 100.
pub proof fn law_report(run: RunView)
    ensures
        run.report().done == run.done,
        run.report().total == run.names.len(),
        run.report().scale == 100,
{
}

/// One more package is done, the report says so, and nothing else has changed.
pub open spec fn one_more_done(before: RunView, after: RunView, report: Progress) -> bool {
    &&& after.kind == before.kind
    &&& after.names == before.names
    &&& after.done == before.done + 1
    &&& report.done == before.done + 1
    &&& report.total == before.names.len()
    &&& report.scale == 100
}

/// `verb` and `name` make up the error of a command that went wrong without saying why.
pub open spec fn went_wrong(verb: Seq<char>, name: Seq<char>) -> Seq<char> {
    verb + " "@ + name + " не удался"@
}

/// A removal counts as done exactly where the client answered that it went well. Where the command
/// failed, printed nothing, reported a failure, or printed what cannot be read, its error is handed
/// on; and so is the reason why a removal did not go well. After an error nothing more is done.
pub proof fn law_removal_is_done_only_where_confirmed(
    before: RunView,
    run: Result<Reply<RemoveResult>, String>,
    after: RunView,
    r: Result<Progress, String>,
)
    requires
        before.kind == OperationKind::Uninstall,
        0 <= before.done < before.names.len(),
        after_command(before, remove_failure(before.names[before.done], run), after, r),
    ensures
        r is Ok <==> (run is Ok && !is_blank(run->Ok_0.stdout@) && !reports_failure(
            run->Ok_0.decoded.envelope,
        ) && run->Ok_0.decoded.payload is Ok && run->Ok_0.decoded.payload->Ok_0.ok),
        r matches Ok(report) ==> one_more_done(before, after, report),
        r is Err ==> after == before,
        run matches Err(e) ==> r matches Err(text) && text@ == e@,
        run matches Ok(reply) ==> {
            &&& is_blank(reply.stdout@) ==> (r matches Err(text) && text@ == "promin: пустой вывод"@)
            &&& !is_blank(reply.stdout@) && reports_failure(reply.decoded.envelope) ==> (
            r matches Err(text) && text@ == reply.decoded.envelope->0.error@)
            &&& !is_blank(reply.stdout@) && !reports_failure(reply.decoded.envelope)
                && reply.decoded.payload is Err ==> (r matches Err(text) && is_meaning(
                reply.stdout@,
                reply.decoded,
                Err::<RemoveResult, Seq<char>>(text@),
            ))
            &&& !is_blank(reply.stdout@) && !reports_failure(reply.decoded.envelope)
                && reply.decoded.payload is Ok && !reply.decoded.payload->Ok_0.ok ==> (
            r matches Err(text) && match reply.decoded.payload->Ok_0.error {
                Some(reason) => text@ == reason@,
                None => text@ == went_wrong("remove"@, before.names[before.done]),
            })
        },
{
    if let Ok(reply) = run {
        law_meaning_of_what_is_printed(reply.stdout@, reply.decoded);
    }
}

/// An installation counts as done exactly where the client answered that it went well. Where the
/// command failed, printed nothing, reported a failure, or printed what cannot be read, its error is
/// handed on; and so is the reason why an installation did not go well. After an error nothing more
/// is done.
pub proof fn law_installation_is_done_only_where_confirmed(
    before: RunView,
    run: Result<Reply<InstallResult>, String>,
    after: RunView,
    r: Result<Progress, String>,
)
    requires
        before.kind == OperationKind::Install || before.kind == OperationKind::Update,
        0 <= before.done < before.names.len(),
        after_command(before, install_failure(before.names[before.done], run), after, r),
    ensures
        r is Ok <==> (run is Ok && !is_blank(run->Ok_0.stdout@) && !reports_failure(
            run->Ok_0.decoded.envelope,
        ) && run->Ok_0.decoded.payload is Ok && run->Ok_0.decoded.payload->Ok_0.ok),
        r matches Ok(report) ==> one_more_done(before, after, report),
        r is Err ==> after == before,
        run matches Err(e) ==> r matches Err(text) && text@ == e@,
        run matches Ok(reply) ==> {
            &&& is_blank(reply.stdout@) ==> (r matches Err(text) && text@ == "promin: пустой вывод"@)
            &&& !is_blank(reply.stdout@) && reports_failure(reply.decoded.envelope) ==> (
            r matches Err(text) && text@ == reply.decoded.envelope->0.error@)
            &&& !is_blank(reply.stdout@) && !reports_failure(reply.decoded.envelope)
                && reply.decoded.payload is Err ==> (r matches Err(text) && is_meaning(
                reply.stdout@,
                reply.decoded,
                Err::<InstallResult, Seq<char>>(text@),
            ))
            &&& !is_blank(reply.stdout@) && !reports_failure(reply.decoded.envelope)
                && reply.decoded.payload is Ok && !reply.decoded.payload->Ok_0.ok ==> (
            r matches Err(text) && match reply.decoded.payload->Ok_0.error {
                Some(reason) => text@ == reason@,
                None => text@ == went_wrong("install"@, before.names[before.done]),
            })
        },
{
    if let Ok(reply) = run {
        law_meaning_of_what_is_printed(reply.stdout@, reply.decoded);
    }
}

/// The requests of an operation from its beginning are those for its first packages, one for each and
/// in order: to install them in an installation or an update, to remove them in a removal. It goes on
/// to the first package whose command fails, ends there with that command's error, and succeeds where
/// none fails.
pub proof fn law_requests_of_an_operation(
    run: RunView,
    errors: spec_fn(int) -> Option<Seq<char>>,
    k: int,
)
    requires
        0 <= run.done <= run.names.len(),
        run.names.len() > 0,
        run.kind == OperationKind::Install || run.kind == OperationKind::Update || run.kind
            == OperationKind::Uninstall,
    ensures
        ({
            let asked = course(run, errors).0;
            let verb = if run.kind == OperationKind::Uninstall {
                "remove"@
            } else {
                "install"@
            };
            &&& asked.len() <= run.names.len() - run.done
            &&& 0 <= k < asked.len() ==> asked[k] == seq![verb, run.names[run.done + k]]
            &&& 0 <= k < asked.len() - 1 ==> errors(run.done + k) is None
            &&& course(run, errors).1 is Ok ==> asked.len() == run.names.len() - run.done && (k
                == asked.len() - 1 && k >= 0 ==> errors(run.done + k) is None)
            &&& course(run, errors).1 matches Err(e) ==> asked.len() > 0 && errors(
                run.done + asked.len() - 1,
            ) == Some(e)
        }),
    decreases run.names.len() - run.done,
{
    if run.done < run.names.len() && errors(run.done) is None {
        law_requests_of_an_operation(run.advanced(), errors, k - 1);
        let rest = course(run.advanced(), errors).0;
        let asked = course(run, errors).0;
        assert(asked.len() == rest.len() + 1);
        if 0 < k < asked.len() {
            assert(asked[k] == rest[k - 1]);
        }
    }
}

} // verus!
