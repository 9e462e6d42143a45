//! Changes to the configuration that requests make.

use crate::config::app_config::{AppConfig, AppConfigView, RecentProject, RecentProjectView};
use crate::config::context::MAX_RECENT_PROJECTS;
use crate::paths::{file_name_in, file_name_of};
use crate::text::{chars_of, same_chars};
use vstd::prelude::*;

verus! {

/// `projects` without those at `path`, in their order.
pub open spec fn without_path(projects: Seq<RecentProjectView>, path: Seq<char>) -> Seq<
    RecentProjectView,
>
    decreases projects.len(),
{
    if projects.len() == 0 {
        Seq::empty()
    } else if projects.last().path == path {
        without_path(projects.drop_last(), path)
    } else {
        without_path(projects.drop_last(), path).push(projects.last())
    }
}

/// The first `n` of `projects`, or all of them where there are fewer.
pub open spec fn at_most(projects: Seq<RecentProjectView>, n: int) -> Seq<RecentProjectView> {
    if projects.len() <= n {
        projects
    } else {
        projects.take(n)
    }
}

/// The name under which a project is listed: the last component of its
/// path, or the path itself where it has none.
pub open spec fn project_name(path: Seq<char>, file_name: Option<Seq<char>>) -> Seq<char> {
    match file_name {
        Some(n) => n,
        None => path,
    }
}

/// The configuration after the project at `path` was opened at time `now`:
/// it is the working directory and heads the recent projects, in which it
/// occurs once and of which the ten most recent are kept.
pub open spec fn opened(
    config: AppConfigView,
    path: Seq<char>,
    file_name: Option<Seq<char>>,
    now: u64,
) -> AppConfigView {
    let entry = RecentProjectView { path, name: project_name(path, file_name), last_opened: now };
    AppConfigView {
        working_directory: Some(path),
        recent_projects: at_most(
            seq![entry] + without_path(config.recent_projects, path),
            MAX_RECENT_PROJECTS as int,
        ),
        ..config
    }
}

/// Whether two strings hold the same text.
fn same_text(a: &str, b: &str) -> (r: bool)
    ensures
        r == (a@ == b@),
{
    let x = chars_of(a);
    let y = chars_of(b);
    same_chars(x.as_slice(), y.as_slice())
}

/// Copies of the projects that are not at `path`, in their order.
fn projects_elsewhere(projects: &Vec<RecentProject>, path: &str) -> (r: Vec<RecentProject>)
    ensures
        r.deep_view() == without_path(projects.deep_view(), path@),
{
    let ghost all = projects.deep_view();
    let mut kept: Vec<RecentProject> = Vec::new();
    let mut i: usize = 0;
    assert(kept.deep_view() =~= without_path(all.take(0), path@));
    while i < projects.len()
        invariant
            i <= projects@.len(),
            all == projects.deep_view(),
            kept.deep_view() == without_path(all.take(i as int), path@),
        decreases projects@.len() - i,
    {
        let p = &projects[i];
        assert(all.take(i + 1).drop_last() =~= all.take(i as int));
        assert(all.take(i + 1).last() == p.deep_view());
        if !same_text(p.path.as_str(), path) {
            let copy = RecentProject {
                path: p.path.clone(),
                name: p.name.clone(),
                last_opened: p.last_opened,
            };
            let ghost before = kept.deep_view();
            kept.push(copy);
            assert(kept.deep_view() =~= before.push(copy.deep_view()));
        }
        i += 1;
    }
    assert(all.take(i as int) =~= all);
    kept
}

/// Records in `config` that the project at `path`, whose last path
/// component is `file_name`, was opened at time `now`.
pub fn open_project(config: &mut AppConfig, path: &str, file_name: Option<String>, now: u64)
    ensures
        final(config).deep_view() == opened(
            old(config).deep_view(),
            path@,
            file_name.deep_view(),
            now,
        ),
{
    let ghost goal = opened(config.deep_view(), path@, file_name.deep_view(), now);
    let kept = projects_elsewhere(&config.recent_projects, path);
    let name = match file_name {
        Some(n) => n,
        None => path.to_owned(),
    };
    let entry = RecentProject { path: path.to_owned(), name, last_opened: now };
    let ghost listed = seq![entry.deep_view()] + kept.deep_view();
    let mut recent: Vec<RecentProject> = Vec::new();
    recent.push(entry);
    assert(recent.deep_view() =~= listed.take(1));
    let mut j: usize = 0;
    while j < kept.len() && recent.len() < MAX_RECENT_PROJECTS
        invariant
            j <= kept@.len(),
            listed == seq![entry.deep_view()] + kept.deep_view(),
            recent@.len() == j + 1,
            recent@.len() <= MAX_RECENT_PROJECTS,
            recent.deep_view() == listed.take(j + 1),
        decreases kept@.len() - j,
    {
        let p = &kept[j];
        let copy = RecentProject {
            path: p.path.clone(),
            name: p.name.clone(),
            last_opened: p.last_opened,
        };
        let ghost before = recent.deep_view();
        recent.push(copy);
        assert(recent.deep_view() =~= before.push(copy.deep_view()));
        assert(listed[j + 1] == kept.deep_view()[j as int]);
        assert(before.push(copy.deep_view()) =~= listed.take(j + 2));
        j += 1;
    }
    assert(recent.deep_view() =~= at_most(listed, MAX_RECENT_PROJECTS as int)) by {
        if j == kept@.len() {
            assert(listed.take(j + 1) =~= listed);
        }
    }
    config.working_directory = Some(path.to_owned());
    config.recent_projects = recent;
    assert(config.deep_view() == goal);
}

/// Records in `config` that the project at `path` was opened at time `now`,
/// under the last component of its path.
pub fn set_working_directory(config: &mut AppConfig, path: &str, now: u64)
    ensures
        final(config).deep_view() == opened(
            old(config).deep_view(),
            path@,
            file_name_in(path@),
            now,
        ),
{
    let file_name = file_name_of(path);
    open_project(config, path, file_name, now);
}

} // verus!
