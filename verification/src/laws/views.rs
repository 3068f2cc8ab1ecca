//! What the contracts say of a value they say of its fields.

use crate::app_info::AppInfo;
use crate::backend::appstream::AppstreamCache;
use crate::backend::json_types::{Lock, LockEntry, ProminConfig};
use crate::backend::operation::{OperationStep, Progress, StepView};
use crate::backend::{Icon, IconView, Package};
use vstd::prelude::*;

verus! {

/// What is said of a card is said of its fields.
pub proof fn law_fields_of_a_card(card: Package, key: Seq<char>)
    ensures
        card.deep_view() == card@,
        card@.id == card.id@,
        card@.info == card.info@,
        card@.version == card.version@,
        card@.extra.contains_key(key) == card.extra@.contains_key(key),
        card.extra@.contains_key(key) ==> card@.extra[key] == card.extra@[key]@,
        match card.icon {
            Icon::Component => card@.icon == IconView::Component,
            Icon::Named { name, size } => card@.icon == (IconView::Named { name: name@, size }),
        },
{
}

/// What is said of the metadata of a component is said of its fields.
pub proof fn law_fields_of_metadata(info: AppInfo)
    ensures
        info@.source_id == info.source_id@,
        info@.source_name == info.source_name@,
        info@.name == info.name@,
        info@.pkgnames == info.pkgnames.deep_view(),
        info@.kind == info.kind,
{
}

/// What is said of a pin is said of its fields.
pub proof fn law_fields_of_a_pin(entry: LockEntry)
    ensures
        entry.deep_view() == entry@,
        entry@.version == entry.version@,
        entry@.input_hash == entry.input_hash@,
        entry@.runtime_deps == entry.runtime_deps.deep_view(),
        match entry.store_name {
            Some(recorded) => entry@.store_name == Some(recorded@),
            None => entry@.store_name is None,
        },
{
}

/// What is said of a lock is said of its fields.
pub proof fn law_fields_of_a_lock(lock: Lock, name: Seq<char>)
    ensures
        lock.deep_view() == lock@,
        match lock.release {
            Some(release) => lock@.release == Some(release@),
            None => lock@.release is None,
        },
        match lock.promin_ref {
            Some(promin_ref) => lock@.promin_ref == Some(promin_ref@),
            None => lock@.promin_ref is None,
        },
        lock@.package_count == lock.package_count,
        lock@.packages.contains_key(name) == lock.packages@.contains_key(name),
        lock.packages@.contains_key(name) ==> lock@.packages[name] == lock.packages@[name]@,
{
}

/// What is said of a configuration is said of its fields.
pub proof fn law_fields_of_a_configuration(config: ProminConfig)
    ensures
        config@.servers == config.servers.deep_view(),
        config@.offline == config.offline,
        config@.timeout == config.timeout,
        config@.release == config.release@,
{
}

/// What is said of a cache is said of its fields.
pub proof fn law_fields_of_a_cache(cache: AppstreamCache, name: Seq<char>)
    ensures
        cache@.source_id == cache.source_id@,
        cache@.source_name == cache.source_name@,
        cache@.paths == cache.paths@,
        cache@.icons_paths == cache.icons_paths.deep_view(),
        cache@.locale == cache.locale@,
        cache@.infos.contains_key(name) == cache.infos@.contains_key(name),
        cache.infos@.contains_key(name) ==> cache@.infos[name] == cache.infos@[name]@,
        cache@.pkgnames.contains_key(name) == cache.pkgnames@.contains_key(name),
        cache.pkgnames@.contains_key(name) ==> cache@.pkgnames[name] == cache.pkgnames@[name]@,
{
}

/// What is said of a report and of a step is said of their fields.
pub proof fn law_fields_of_a_step(report: Progress, step: OperationStep)
    ensures
        report@.done == report.done,
        report@.total == report.total,
        report@.scale == report.scale,
        match step {
            OperationStep::Run(request) => step@ == StepView::Run(request@),
            OperationStep::Refuse(error) => step@ == StepView::Refuse(error@),
            OperationStep::Finish(last) => step@ == StepView::Finish(last@),
        },
{
}

} // verus!
