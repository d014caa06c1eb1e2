//! Adding many projects at once: what to ask the platforms for, and what
//! comes of their answers.

use crate::config::filters::FilterView;
use crate::config::structs::{ModIdentifier, ModIdentifierView, Profile};
use crate::iter_ext::{first_where, lemma_first_where_from};
use crate::platform::{CurseForgeProject, GitHubRepository, GraphQlError, ModrinthProject};
use crate::text;
use crate::upgrade::check::explains;
use super::{
    curseforge,
    curseforge_verdict,
    github,
    github_verdict,
    is_settled,
    known_mods,
    modrinth,
    modrinth_verdict,
    Error,
    Verdict,
};
use vstd::prelude::*;

verus! {

/// Whether the numbers grow from each to the next.
pub open spec fn is_ascending(ids: Seq<i32>) -> bool {
    forall|i: int, j: int| 0 <= i < j < ids.len() ==> ids[i] < ids[j]
}

/// Whether each text comes before the next, as words do in a dictionary.
pub open spec fn is_in_order(names: Seq<Seq<char>>) -> bool {
    forall|i: int, j: int| 0 <= i < j < names.len() ==> text::comes_before(names[i], names[j])
}

/// A sequence with one more item holds that item and what it held before.
proof fn lemma_insert_contains<A>(items: Seq<A>, at: int, item: A)
    requires
        0 <= at <= items.len(),
    ensures
        forall|other: A|
            #[trigger] items.insert(at, item).contains(other) <==> (items.contains(other) || other
                == item),
{
    let more = items.insert(at, item);
    assert forall|other: A| #[trigger] more.contains(other) <==> (items.contains(other) || other
        == item) by {
        if more.contains(other) {
            let k = choose|k: int| 0 <= k < more.len() && more[k] == other;
            assert(k < at ==> items[k] == other);
            assert(k > at ==> items[k - 1] == other);
        }
        if items.contains(other) {
            let k = choose|k: int| 0 <= k < items.len() && items[k] == other;
            if k < at {
                assert(more[k] == other);
            } else {
                assert(more[k + 1] == other);
            }
        }
        if other == item {
            assert(more[at] == other);
        }
    }
}

/// Puts `id` in its place among `ids`, unless it is there already.
fn insert_id(ids: &mut Vec<i32>, id: i32)
    requires
        is_ascending(old(ids)@),
    ensures
        is_ascending(final(ids)@),
        forall|other: i32|
            #[trigger] final(ids)@.contains(other) <==> (old(ids)@.contains(other) || other == id),
{
    let mut at: usize = 0;
    while at < ids.len() && ids[at] < id
        invariant
            at <= ids.len(),
            *ids == *old(ids),
            forall|k: int| 0 <= k < at ==> ids@[k] < id,
        decreases ids.len() - at,
    {
        at += 1;
    }
    if at < ids.len() && ids[at] == id {
        return ;
    }
    proof {
        lemma_insert_contains(ids@, at as int, id);
    }
    ids.insert(at, id);
}

/// Puts `name` in its place among `names`, unless it is there already.
fn insert_name(names: &mut Vec<String>, name: String)
    requires
        is_in_order(old(names).deep_view()),
    ensures
        is_in_order(final(names).deep_view()),
        forall|other: Seq<char>|
            #[trigger] final(names).deep_view().contains(other) <==> (old(
                names,
            ).deep_view().contains(other) || other == name@),
{
    let ghost given = names.deep_view();
    let mut at: usize = 0;
    while at < names.len() && text::text_comes_before(names[at].as_str(), name.as_str())
        invariant
            at <= names.len(),
            *names == *old(names),
            given == names.deep_view(),
            forall|k: int| 0 <= k < at ==> text::comes_before(given[k], name@),
        decreases names.len() - at,
    {
        at += 1;
    }
    if at < names.len() && text::str_eq(names[at].as_str(), name.as_str()) {
        assert(given[at as int] == name@);
        return ;
    }
    proof {
        lemma_insert_contains(given, at as int, name@);
        let more = given.insert(at as int, name@);
        assert forall|i: int, j: int| 0 <= i < j < more.len() implies text::comes_before(
            more[i],
            more[j],
        ) by {
            if at < given.len() {
                text::lemma_comes_before_is_total(given[at as int], name@);
            }
            if i == at && j - 1 > at {
                text::lemma_comes_before_is_transitive(name@, given[at as int], given[j - 1]);
            }
        }
    }
    names.insert(at, name);
    assert(names.deep_view() =~= given.insert(at as int, name@));
}

/// The projects to ask the platforms for.
#[derive(Debug, Clone)]
pub struct AddRequest {
    /// The IDs of the CurseForge projects, each once and in ascending order
    pub cf_ids: Vec<i32>,
    /// The IDs or slugs of the Modrinth projects, each once and in the order
    /// of a dictionary
    pub mr_ids: Vec<String>,
    /// The owners and names of the GitHub repositories
    pub gh_ids: Vec<(String, String)>,
}

/// The owners and names of the GitHub repositories among `identifiers`, in
/// their order.
pub open spec fn github_repositories(identifiers: Seq<ModIdentifierView>) -> Seq<
    (Seq<char>, Seq<char>),
>
    decreases identifiers.len(),
{
    if identifiers.len() == 0 {
        Seq::empty()
    } else {
        match identifiers.last() {
            ModIdentifierView::GitHubRepository(owner, name) => github_repositories(
                identifiers.drop_last(),
            ).push((owner, name)),
            _ => github_repositories(identifiers.drop_last()),
        }
    }
}

/// Sorts the `identifiers` by platform: what is to be asked of each.
pub fn classify(identifiers: Vec<ModIdentifier>) -> (request: AddRequest)
    ensures
        is_ascending(request.cf_ids@),
        forall|id: i32|
            #[trigger] request.cf_ids@.contains(id) <==> identifiers.deep_view().contains(
                ModIdentifierView::CurseForgeProject(id),
            ),
        is_in_order(request.mr_ids.deep_view()),
        forall|id: Seq<char>|
            #[trigger] request.mr_ids.deep_view().contains(id) <==> identifiers.deep_view().contains(
                ModIdentifierView::ModrinthProject(id),
            ),
        request.gh_ids.deep_view() == github_repositories(identifiers.deep_view()),
{
    let mut cf_ids: Vec<i32> = Vec::new();
    let mut mr_ids: Vec<String> = Vec::new();
    let mut gh_ids: Vec<(String, String)> = Vec::new();
    let ghost given = identifiers@;
    let ghost views = identifiers.deep_view();
    for identifier in it: identifiers
        invariant
            it.seq() == given,
            views.len() == given.len(),
            forall|k: int| 0 <= k < given.len() ==> views[k] == (#[trigger] given[k])@,
            is_ascending(cf_ids@),
            forall|id: i32|
                #[trigger] cf_ids@.contains(id) <==> views.take(it.index() as int).contains(
                    ModIdentifierView::CurseForgeProject(id),
                ),
            is_in_order(mr_ids.deep_view()),
            forall|id: Seq<char>|
                #[trigger] mr_ids.deep_view().contains(id) <==> views.take(
                    it.index() as int,
                ).contains(ModIdentifierView::ModrinthProject(id)),
            gh_ids.deep_view() == github_repositories(views.take(it.index() as int)),
    {
        let ghost seen = views.take(it.index() as int);
        let ghost more = views.take(it.index() + 1);
        proof {
            assert(more.drop_last() =~= seen);
            assert(more.last() == identifier@);
            assert forall|view: ModIdentifierView| #[trigger]
                more.contains(view) <==> (seen.contains(view) || view == identifier@) by {
            }
        }
        match identifier {
            ModIdentifier::CurseForgeProject(id) => {
                insert_id(&mut cf_ids, id);
            },
            ModIdentifier::ModrinthProject(id) => {
                insert_name(&mut mr_ids, id);
            },
            ModIdentifier::GitHubRepository(id) => {
                gh_ids.push(id);
            },
        }
    }
    assert(views.take(given.len() as int) =~= views);
    AddRequest { cf_ids, mr_ids, gh_ids }
}

/// What is asked of each repository: its owner, its name, and the names of
/// the assets of its releases. It follows the repository's name in a query.
pub const REPOSITORY_FIELDS: &'static str =
    "\") {\n                    owner {\n                        login\n                    }\n                    name\n                    releases(first: 100) {\n                      nodes {\n                        releaseAssets(first: 10) {\n                          nodes {\n                            name\n                          }\n                        }\n                      }\n                    }\n                }";

/// The part of a query that asks for the repository at place `i`.
pub open spec fn repository_query(i: nat, owner: Seq<char>, name: Seq<char>) -> Seq<char> {
    "_"@ + text::decimal_text(i) + ": repository(owner: \""@ + owner + "\", name: \""@ + name
        + REPOSITORY_FIELDS@
}

/// The parts of a query that ask for the first `count` of `repositories`.
pub open spec fn repository_queries(repositories: Seq<(Seq<char>, Seq<char>)>, count: nat) -> Seq<
    char,
>
    decreases count,
{
    if count == 0 {
        Seq::empty()
    } else {
        let i = (count - 1) as nat;
        repository_queries(repositories, i) + repository_query(
            i,
            repositories[i as int].0,
            repositories[i as int].1,
        )
    }
}

/// The query that asks GitHub for all of `repositories` at once. Each is
/// asked for under the name `_` and its place in the list, so that the
/// answer tells which repository it is about.
pub open spec fn graphql_query_text(repositories: Seq<(Seq<char>, Seq<char>)>) -> Seq<char> {
    "{"@ + repository_queries(repositories, repositories.len()) + "}"@
}

/// Writes [`graphql_query_text`].
pub fn graphql_query(gh_ids: &Vec<(String, String)>) -> (query: String)
    ensures
        query@ == graphql_query_text(gh_ids.deep_view()),
{
    let mut query = "{".to_owned();
    let mut i: usize = 0;
    let ghost repositories = gh_ids.deep_view();
    while i < gh_ids.len()
        invariant
            i <= gh_ids.len(),
            repositories == gh_ids.deep_view(),
            query@ == "{"@ + repository_queries(repositories, i as nat),
        decreases gh_ids.len() - i,
    {
        query.append("_");
        query.append(text::usize_to_string(i).as_str());
        query.append(": repository(owner: \"");
        query.append(gh_ids[i].0.as_str());
        query.append("\", name: \"");
        query.append(gh_ids[i].1.as_str());
        query.append(REPOSITORY_FIELDS);
        i += 1;
    }
    query.append("}");
    query
}

/// What the platforms have answered to an [`AddRequest`].
#[derive(Debug, Clone)]
pub struct AddResponse {
    /// The CurseForge projects that were found
    pub cf_projects: Vec<CurseForgeProject>,
    /// The Modrinth projects that were found
    pub mr_projects: Vec<ModrinthProject>,
    /// The GitHub repositories that were found
    pub gh_repos: Vec<GitHubRepository>,
    /// What GitHub could not answer
    pub gh_errors: Vec<GraphQlError>,
}

/// Why a project is reported as not added.
pub enum Reason {
    /// No platform knows it.
    DoesNotExist,
    /// GitHub has refused to tell of it, with this message.
    GitHubError(Seq<char>),
    /// It was found, and turned down.
    Refused(Verdict),
}

/// What comes of adding projects: the names and identifiers of the mods the
/// profile then has, the names of the projects that were added, and, for
/// each that was not, what it is called and why it was not.
pub struct Report {
    pub known: Seq<(Seq<char>, ModIdentifierView)>,
    pub added: Seq<Seq<char>>,
    pub failed: Seq<(Seq<char>, Reason)>,
}

/// The report after one more project, given the verdict on it. An accepted
/// project is known from then on, under its trimmed name, and listed as
/// `shown`; another is listed as `label` with the verdict.
pub open spec fn after_attempt(
    report: Report,
    verdict: Verdict,
    name: Seq<char>,
    identifier: ModIdentifierView,
    shown: Seq<char>,
    label: Seq<char>,
) -> Report {
    match verdict {
        Verdict::Accepted => Report {
            known: report.known.push((text::trimmed(name), identifier)),
            added: report.added.push(shown),
            failed: report.failed,
        },
        refused => Report {
            known: report.known,
            added: report.added,
            failed: report.failed.push((label, Reason::Refused(refused))),
        },
    }
}

/// `items` without the item at place `at`, the last item put in its place.
pub open spec fn swap_removed<A>(items: Seq<A>, at: Option<int>) -> Seq<A> {
    match at {
        Some(i) => items.update(i, items.last()).drop_last(),
        None => items,
    }
}

/// The test whether a number is `wanted`.
pub open spec fn is_id(wanted: i32) -> spec_fn(i32) -> bool {
    |id: i32| id == wanted
}

/// Those of `ids` that none of `projects` answers. Each project takes the
/// first ID that is its own out of the list, the last ID moving to that
/// place.
pub open spec fn unanswered_ids(ids: Seq<i32>, projects: Seq<CurseForgeProject>) -> Seq<i32>
    decreases projects.len(),
{
    if projects.len() == 0 {
        ids
    } else {
        let before = unanswered_ids(ids, projects.drop_last());
        swap_removed(before, first_where(before, is_id(projects.last().id)))
    }
}

/// Whether `project` answers to `id`: `id` is its ID or, the case of ASCII
/// letters aside, its slug.
pub open spec fn answers_to(project: ModrinthProject, id: Seq<char>) -> bool {
    id == project.id@ || text::same_ignoring_ascii_case(project.slug@, id)
}

/// The test whether `project` answers to an ID.
pub open spec fn is_answered_by(project: ModrinthProject) -> spec_fn(Seq<char>) -> bool {
    |id: Seq<char>| answers_to(project, id)
}

/// Those of `ids` that none of `projects` answers to. Each project takes the
/// first ID that it answers to out of the list, the last ID moving to that
/// place.
pub open spec fn unanswered_names(ids: Seq<Seq<char>>, projects: Seq<ModrinthProject>) -> Seq<
    Seq<char>,
>
    decreases projects.len(),
{
    if projects.len() == 0 {
        ids
    } else {
        let before = unanswered_names(ids, projects.drop_last());
        swap_removed(before, first_where(before, is_answered_by(projects.last())))
    }
}

/// What a CurseForge project is called where it is reported as refused.
pub open spec fn curseforge_label(project: CurseForgeProject) -> Seq<char> {
    project.name@ + " ("@ + text::integer_text(project.id as int) + ")"@
}

/// What a Modrinth project is called where it is reported as refused.
pub open spec fn modrinth_label(project: ModrinthProject) -> Seq<char> {
    project.title@ + " ("@ + project.id@ + ")"@
}

/// What a GitHub repository is called in a report.
pub open spec fn repository_label(owner: Seq<char>, name: Seq<char>) -> Seq<char> {
    owner + "/"@ + name
}

/// The report after the attempt to add each of `projects`, in their order.
pub open spec fn after_curseforge(
    start: Report,
    projects: Seq<CurseForgeProject>,
    filters: Seq<FilterView>,
    perform_checks: bool,
    groups: Seq<Seq<Seq<char>>>,
) -> Report
    decreases projects.len(),
{
    if projects.len() == 0 {
        start
    } else {
        let before = after_curseforge(
            start,
            projects.drop_last(),
            filters,
            perform_checks,
            groups,
        );
        let project = projects.last();
        after_attempt(
            before,
            curseforge_verdict(project, before.known, filters, perform_checks, groups),
            project.name@,
            ModIdentifierView::CurseForgeProject(project.id),
            project.name@,
            curseforge_label(project),
        )
    }
}

/// The report after the attempt to add each of `projects`, in their order.
pub open spec fn after_modrinth(
    start: Report,
    projects: Seq<ModrinthProject>,
    filters: Seq<FilterView>,
    perform_checks: bool,
    groups: Seq<Seq<Seq<char>>>,
) -> Report
    decreases projects.len(),
{
    if projects.len() == 0 {
        start
    } else {
        let before = after_modrinth(start, projects.drop_last(), filters, perform_checks, groups);
        let project = projects.last();
        after_attempt(
            before,
            modrinth_verdict(project, before.known, filters, perform_checks, groups),
            project.title@,
            ModIdentifierView::ModrinthProject(project.id@),
            project.title@,
            modrinth_label(project),
        )
    }
}

/// The report after the attempt to add each of `repositories`, in their
/// order. A repository is always checked against the assets it has released.
pub open spec fn after_github(
    start: Report,
    repositories: Seq<GitHubRepository>,
    filters: Seq<FilterView>,
    groups: Seq<Seq<Seq<char>>>,
) -> Report
    decreases repositories.len(),
{
    if repositories.len() == 0 {
        start
    } else {
        let before = after_github(start, repositories.drop_last(), filters, groups);
        let repository = repositories.last();
        after_attempt(
            before,
            github_verdict(
                repository.owner@,
                repository.name@,
                before.known,
                filters,
                Some(repository.asset_names.deep_view()),
                groups,
            ),
            repository.name@,
            ModIdentifierView::GitHubRepository(repository.owner@, repository.name@),
            repository_label(repository.owner@, repository.name@),
            repository_label(repository.owner@, repository.name@),
        )
    }
}

/// The place among the `count` repositories that were asked for of the one
/// that an error with this path is about: the number behind the `_` that the
/// path begins with.
pub open spec fn error_subject(path: Seq<Seq<char>>, count: nat) -> Option<int> {
    if path.len() > 0 && path[0].len() > 0 && path[0][0] == '_' {
        match text::parsed_u64(path[0].skip(1)) {
            Some(place) => if place < count {
                Some(place as int)
            } else {
                None
            },
            None => None,
        }
    } else {
        None
    }
}

/// Why a repository is reported as not added, given GitHub's error.
pub open spec fn error_reason(error: GraphQlError) -> Reason {
    if error.type_@ == "NOT_FOUND"@ {
        Reason::DoesNotExist
    } else {
        Reason::GitHubError(error.message@)
    }
}

/// What is reported of the repositories that GitHub has not answered for.
pub open spec fn github_failures(
    errors: Seq<GraphQlError>,
    repositories: Seq<(Seq<char>, Seq<char>)>,
) -> Seq<(Seq<char>, Reason)> {
    Seq::new(
        errors.len(),
        |i: int|
            {
                let subject = repositories[error_subject(
                    errors[i].path.deep_view(),
                    repositories.len(),
                ).unwrap()];
                (repository_label(subject.0, subject.1), error_reason(errors[i]))
            },
    )
}

/// Whether each of GitHub's errors tells which of the repositories that
/// were asked for it is about.
pub open spec fn errors_have_subjects(request: AddRequest, response: AddResponse) -> bool {
    forall|i: int|
        0 <= i < response.gh_errors@.len() ==> error_subject(
            (#[trigger] response.gh_errors@[i]).path.deep_view(),
            request.gh_ids@.len(),
        ) is Some
}

/// What comes of adding the projects of `response` to a profile with the
/// mods `known` and the filters `filters`. First GitHub's errors are
/// listed. Then the CurseForge projects are tried, in their order, and the
/// IDs that no project answers are listed as missing; then the same for
/// Modrinth; then the GitHub repositories are tried.
pub open spec fn add_report(
    known: Seq<(Seq<char>, ModIdentifierView)>,
    filters: Seq<FilterView>,
    request: AddRequest,
    response: AddResponse,
    perform_checks: bool,
    groups: Seq<Seq<Seq<char>>>,
) -> Report {
    let start = Report {
        known,
        added: Seq::empty(),
        failed: github_failures(response.gh_errors@, request.gh_ids.deep_view()),
    };
    let tried = after_curseforge(start, response.cf_projects@, filters, perform_checks, groups);
    let listed = Report {
        known: tried.known,
        added: tried.added,
        failed: tried.failed + unanswered_ids(
            request.cf_ids@,
            response.cf_projects@,
        ).map_values(|id: i32| (text::integer_text(id as int), Reason::DoesNotExist)),
    };
    let tried = after_modrinth(listed, response.mr_projects@, filters, perform_checks, groups);
    let listed = Report {
        known: tried.known,
        added: tried.added,
        failed: tried.failed + unanswered_names(
            request.mr_ids.deep_view(),
            response.mr_projects@,
        ).map_values(|id: Seq<char>| (id, Reason::DoesNotExist)),
    };
    after_github(listed, response.gh_repos@, filters, groups)
}

/// Whether `error` tells of `reason`.
pub open spec fn tells(error: Error, reason: Reason) -> bool {
    match reason {
        Reason::DoesNotExist => error is DoesNotExist,
        Reason::GitHubError(message) => error matches Error::GitHubError(text) && text@ == message,
        Reason::Refused(verdict) => match verdict {
            Verdict::AlreadyAdded => error is AlreadyAdded,
            Verdict::DistributionDenied => error is DistributionDenied,
            Verdict::NotAMod => error is NotAMod,
            Verdict::Incompatible(resolution) => error matches Error::Incompatible(why)
                && explains(why, resolution),
            Verdict::Accepted => false,
        },
    }
}

/// Whether the profile went from `before` to `after`, and `added` and
/// `failed` were listed, as `report` says: the profile has new mods behind
/// those it had, none with a pin or filters of its own, and is otherwise
/// unchanged; its mods are those that the report knows; and the two lists
/// are the report's.
pub open spec fn is_reported(
    before: Profile,
    after: Profile,
    added: Seq<String>,
    failed: Seq<(String, Error)>,
    report: Report,
) -> bool {
    &&& after.name == before.name
    &&& after.output_dir == before.output_dir
    &&& after.filters == before.filters
    &&& after.game_version == before.game_version
    &&& after.mod_loader == before.mod_loader
    &&& before.mods@.len() <= after.mods@.len()
    &&& after.mods@.take(before.mods@.len() as int) == before.mods@
    &&& forall|i: int|
        before.mods@.len() <= i < after.mods@.len() ==> {
            &&& (#[trigger] after.mods@[i]).pin is None
            &&& after.mods@[i].filters@.len() == 0
            &&& !after.mods@[i].override_filters
        }
    &&& known_mods(after.mods@) == report.known
    &&& added.len() == report.added.len()
    &&& forall|i: int| 0 <= i < added.len() ==> (#[trigger] added[i])@ == report.added[i]
    &&& failed.len() == report.failed.len()
    &&& forall|i: int|
        0 <= i < failed.len() ==> (#[trigger] failed[i]).0@ == report.failed[i].0 && tells(
            failed[i].1,
            report.failed[i].1,
        )
}

/// One more attempt settles into the report as [`after_attempt`] says.
proof fn lemma_attempt_is_reported(
    first: Profile,
    before: Profile,
    after: Profile,
    added: Seq<String>,
    failed: Seq<(String, Error)>,
    report: Report,
    outcome: Result<(), Error>,
    verdict: Verdict,
    name: Seq<char>,
    identifier: ModIdentifierView,
    shown: String,
    label: String,
)
    requires
        is_reported(first, before, added, failed, report),
        is_settled(before, after, outcome, verdict, name, identifier),
    ensures
        match outcome {
            Ok(_) => is_reported(
                first,
                after,
                added.push(shown),
                failed,
                after_attempt(report, verdict, name, identifier, shown@, label@),
            ),
            Err(error) => is_reported(
                first,
                after,
                added,
                failed.push((label, error)),
                after_attempt(report, verdict, name, identifier, shown@, label@),
            ),
        },
{
    if outcome is Ok {
        let grown = after.mods@;
        assert(grown.take(first.mods@.len() as int) =~= first.mods@) by {
            assert forall|k: int| 0 <= k < first.mods@.len() implies grown[k]
                == first.mods@[k] by {
            }
        }
        assert forall|i: int| first.mods@.len() <= i < grown.len() implies {
            &&& (#[trigger] grown[i]).pin is None
            &&& grown[i].filters@.len() == 0
            &&& !grown[i].override_filters
        } by {
            if i < grown.len() - 1 {
                assert(grown.drop_last()[i] == grown[i]);
            }
        }
        assert(known_mods(grown) =~= report.known.push((text::trimmed(name), identifier))) by {
            assert forall|k: int| 0 <= k < grown.len() - 1 implies known_mods(grown)[k]
                == report.known[k] by {
            }
        }
    }
}

/// Takes the first ID that is `project_id` out of `ids`.
fn take_answered_id(ids: &mut Vec<i32>, project_id: i32)
    ensures
        final(ids)@ == swap_removed(old(ids)@, first_where(old(ids)@, is_id(project_id))),
{
    let mut i: usize = 0;
    while i < ids.len()
        invariant
            i <= ids.len(),
            *ids == *old(ids),
            forall|k: int| 0 <= k < i ==> !is_id(project_id)(#[trigger] ids@[k]),
        decreases ids.len() - i,
    {
        if ids[i] == project_id {
            proof {
                lemma_first_where_from(ids@, is_id(project_id), i as int);
            }
            ids.swap_remove(i);
            return ;
        }
        i += 1;
    }
    proof {
        lemma_first_where_from(ids@, is_id(project_id), ids.len() as int);
    }
}

/// Takes the first ID that `project` answers to out of `ids`.
fn take_answered_name(ids: &mut Vec<String>, project: &ModrinthProject)
    ensures
        final(ids).deep_view() == swap_removed(
            old(ids).deep_view(),
            first_where(old(ids).deep_view(), is_answered_by(*project)),
        ),
{
    let ghost given = ids.deep_view();
    let mut i: usize = 0;
    while i < ids.len()
        invariant
            i <= ids.len(),
            *ids == *old(ids),
            given == ids.deep_view(),
            forall|k: int| 0 <= k < i ==> !is_answered_by(*project)(#[trigger] given[k]),
        decreases ids.len() - i,
    {
        if text::str_eq(ids[i].as_str(), project.id.as_str()) || text::eq_ignore_ascii_case(
            project.slug.as_str(),
            ids[i].as_str(),
        ) {
            proof {
                lemma_first_where_from(given, is_answered_by(*project), i as int);
            }
            ids.swap_remove(i);
            return ;
        }
        i += 1;
    }
    proof {
        lemma_first_where_from(given, is_answered_by(*project), ids.len() as int);
    }
}

/// Finds [`error_subject`].
fn subject_of(path: &Vec<String>, count: usize) -> (subject: Option<usize>)
    ensures
        match error_subject(path.deep_view(), count as nat) {
            Some(place) => subject == Some(place as usize),
            None => subject is None,
        },
{
    if path.len() == 0 {
        return None;
    }
    let name = path[0].as_str();
    let chars = text::chars_of(name);
    if chars.len() == 0 || chars[0] != '_' {
        return None;
    }
    match text::parse_u64(name.substring_char(1, chars.len())) {
        Some(place) => if place < count as u64 {
            Some(place as usize)
        } else {
            None
        },
        None => None,
    }
}

/// Tests [`errors_have_subjects`]: whether [`add`] can take this answer to
/// this request.
pub fn have_subjects(request: &AddRequest, response: &AddResponse) -> (all: bool)
    ensures
        all == errors_have_subjects(*request, *response),
{
    let mut i: usize = 0;
    while i < response.gh_errors.len()
        invariant
            i <= response.gh_errors.len(),
            forall|k: int|
                0 <= k < i ==> error_subject(
                    (#[trigger] response.gh_errors@[k]).path.deep_view(),
                    request.gh_ids@.len(),
                ) is Some,
        decreases response.gh_errors.len() - i,
    {
        if subject_of(&response.gh_errors[i].path, request.gh_ids.len()).is_none() {
            return false;
        }
        i += 1;
    }
    true
}

/// Writes [`repository_label`].
fn label_repository(owner: &str, name: &str) -> (label: String)
    ensures
        label@ == repository_label(owner@, name@),
{
    let mut label = owner.to_owned();
    label.append("/");
    label.append(name);
    label
}

/// Adds the projects that the platforms have found to `profile`, and
/// reports the names of those that were added and, for each that was not,
/// what it is called and why it was not. `request` is what the platforms
/// were asked for.
///
/// Performs checks on the mods to see whether they're compatible with the
/// profile if `perform_checks` is true; a GitHub repository is always
/// checked.
pub fn add(
    profile: &mut Profile,
    request: AddRequest,
    response: AddResponse,
    perform_checks: bool,
    version_groups: &[Vec<String>],
) -> (report: (Vec<String>, Vec<(String, Error)>))
    requires
        errors_have_subjects(request, response),
    ensures
        is_reported(
            *old(profile),
            *final(profile),
            report.0@,
            report.1@,
            add_report(
                known_mods(old(profile).mods@),
                old(profile).filters.deep_view(),
                request,
                response,
                perform_checks,
                version_groups.deep_view(),
            ),
        ),
{
    let ghost first = *profile;
    let ghost known = known_mods(profile.mods@);
    let ghost filters = profile.filters.deep_view();
    let ghost groups = version_groups.deep_view();
    let mut added: Vec<String> = Vec::new();
    let mut failed: Vec<(String, Error)> = Vec::new();
    let mut cf_ids = request.cf_ids;
    let mut mr_ids = request.mr_ids;
    let gh_ids = request.gh_ids;
    let ghost repositories = gh_ids.deep_view();

    let mut i: usize = 0;
    while i < response.gh_errors.len()
        invariant
            i <= response.gh_errors.len(),
            repositories == gh_ids.deep_view(),
            forall|k: int|
                0 <= k < response.gh_errors@.len() ==> error_subject(
                    (#[trigger] response.gh_errors@[k]).path.deep_view(),
                    gh_ids@.len(),
                ) is Some,
            failed@.len() == i,
            forall|k: int|
                0 <= k < i ==> (#[trigger] failed@[k]).0@ == github_failures(
                    response.gh_errors@,
                    repositories,
                )[k].0 && tells(failed@[k].1, github_failures(response.gh_errors@, repositories)[k].1),
        decreases response.gh_errors.len() - i,
    {
        let error = &response.gh_errors[i];
        let subject = subject_of(&error.path, gh_ids.len()).unwrap();
        let label = label_repository(gh_ids[subject].0.as_str(), gh_ids[subject].1.as_str());
        let reason = if text::str_eq(error.type_.as_str(), "NOT_FOUND") {
            Error::DoesNotExist
        } else {
            Error::GitHubError(error.message.clone())
        };
        failed.push((label, reason));
        i += 1;
    }
    let ghost start = Report {
        known,
        added: Seq::empty(),
        failed: github_failures(response.gh_errors@, repositories),
    };
    assert(is_reported(first, *profile, added@, failed@, start)) by {
        assert(profile.mods@.take(first.mods@.len() as int) =~= first.mods@);
    }

    let ghost asked = cf_ids@;
    let mut i: usize = 0;
    while i < response.cf_projects.len()
        invariant
            i <= response.cf_projects.len(),
            filters == first.filters.deep_view(),
            groups == version_groups.deep_view(),
            cf_ids@ == unanswered_ids(asked, response.cf_projects@.take(i as int)),
            is_reported(
                first,
                *profile,
                added@,
                failed@,
                after_curseforge(
                    start,
                    response.cf_projects@.take(i as int),
                    filters,
                    perform_checks,
                    groups,
                ),
            ),
        decreases response.cf_projects.len() - i,
    {
        let project = &response.cf_projects[i];
        let ghost before = *profile;
        let ghost so_far = after_curseforge(
            start,
            response.cf_projects@.take(i as int),
            filters,
            perform_checks,
            groups,
        );
        proof {
            let upto = response.cf_projects@.take(i + 1);
            assert(upto.drop_last() =~= response.cf_projects@.take(i as int));
        }
        take_answered_id(&mut cf_ids, project.id);
        let outcome = curseforge(project, profile, perform_checks, version_groups);
        let shown = project.name.clone();
        let mut label = project.name.clone();
        label.append(" (");
        label.append(text::i32_to_string(project.id).as_str());
        label.append(")");
        proof {
            lemma_attempt_is_reported(
                first,
                before,
                *profile,
                added@,
                failed@,
                so_far,
                outcome,
                curseforge_verdict(*project, so_far.known, filters, perform_checks, groups),
                project.name@,
                ModIdentifierView::CurseForgeProject(project.id),
                shown,
                label,
            );
        }
        match outcome {
            Ok(_) => {
                added.push(shown);
            },
            Err(error) => {
                failed.push((label, error));
            },
        }
        i += 1;
    }
    assert(response.cf_projects@.take(response.cf_projects.len() as int)
        =~= response.cf_projects@);
    let ghost tried = after_curseforge(
        start,
        response.cf_projects@,
        filters,
        perform_checks,
        groups,
    );
    let ghost missing = cf_ids@.map_values(
        |id: i32| (text::integer_text(id as int), Reason::DoesNotExist),
    );
    let mut i: usize = 0;
    while i < cf_ids.len()
        invariant
            i <= cf_ids.len(),
            missing == cf_ids@.map_values(
                |id: i32| (text::integer_text(id as int), Reason::DoesNotExist),
            ),
            is_reported(
                first,
                *profile,
                added@,
                failed@,
                Report {
                    known: tried.known,
                    added: tried.added,
                    failed: tried.failed + missing.take(i as int),
                },
            ),
        decreases cf_ids.len() - i,
    {
        let label = text::i32_to_string(cf_ids[i]);
        failed.push((label, Error::DoesNotExist));
        i += 1;
    }
    let ghost start = Report {
        known: tried.known,
        added: tried.added,
        failed: tried.failed + missing,
    };

    let ghost asked = mr_ids.deep_view();
    let mut i: usize = 0;
    while i < response.mr_projects.len()
        invariant
            i <= response.mr_projects.len(),
            filters == first.filters.deep_view(),
            groups == version_groups.deep_view(),
            mr_ids.deep_view() == unanswered_names(asked, response.mr_projects@.take(i as int)),
            is_reported(
                first,
                *profile,
                added@,
                failed@,
                after_modrinth(
                    start,
                    response.mr_projects@.take(i as int),
                    filters,
                    perform_checks,
                    groups,
                ),
            ),
        decreases response.mr_projects.len() - i,
    {
        let project = &response.mr_projects[i];
        let ghost before = *profile;
        let ghost so_far = after_modrinth(
            start,
            response.mr_projects@.take(i as int),
            filters,
            perform_checks,
            groups,
        );
        proof {
            let upto = response.mr_projects@.take(i + 1);
            assert(upto.drop_last() =~= response.mr_projects@.take(i as int));
        }
        take_answered_name(&mut mr_ids, project);
        let outcome = modrinth(project, profile, perform_checks, version_groups);
        let shown = project.title.clone();
        let mut label = project.title.clone();
        label.append(" (");
        label.append(project.id.as_str());
        label.append(")");
        proof {
            lemma_attempt_is_reported(
                first,
                before,
                *profile,
                added@,
                failed@,
                so_far,
                outcome,
                modrinth_verdict(*project, so_far.known, filters, perform_checks, groups),
                project.title@,
                ModIdentifierView::ModrinthProject(project.id@),
                shown,
                label,
            );
        }
        match outcome {
            Ok(_) => {
                added.push(shown);
            },
            Err(error) => {
                failed.push((label, error));
            },
        }
        i += 1;
    }
    assert(response.mr_projects@.take(response.mr_projects.len() as int)
        =~= response.mr_projects@);
    let ghost tried = after_modrinth(
        start,
        response.mr_projects@,
        filters,
        perform_checks,
        groups,
    );
    let ghost missing = mr_ids.deep_view().map_values(
        |id: Seq<char>| (id, Reason::DoesNotExist),
    );
    let mut i: usize = 0;
    while i < mr_ids.len()
        invariant
            i <= mr_ids.len(),
            missing == mr_ids.deep_view().map_values(|id: Seq<char>| (id, Reason::DoesNotExist)),
            is_reported(
                first,
                *profile,
                added@,
                failed@,
                Report {
                    known: tried.known,
                    added: tried.added,
                    failed: tried.failed + missing.take(i as int),
                },
            ),
        decreases mr_ids.len() - i,
    {
        let label = mr_ids[i].clone();
        failed.push((label, Error::DoesNotExist));
        i += 1;
    }
    let ghost start = Report {
        known: tried.known,
        added: tried.added,
        failed: tried.failed + missing,
    };

    let mut i: usize = 0;
    while i < response.gh_repos.len()
        invariant
            i <= response.gh_repos.len(),
            filters == first.filters.deep_view(),
            groups == version_groups.deep_view(),
            is_reported(
                first,
                *profile,
                added@,
                failed@,
                after_github(start, response.gh_repos@.take(i as int), filters, groups),
            ),
        decreases response.gh_repos.len() - i,
    {
        let repository = &response.gh_repos[i];
        let ghost before = *profile;
        let ghost so_far = after_github(
            start,
            response.gh_repos@.take(i as int),
            filters,
            groups,
        );
        proof {
            let upto = response.gh_repos@.take(i + 1);
            assert(upto.drop_last() =~= response.gh_repos@.take(i as int));
        }
        let asset_names = repository.asset_names.as_slice();
        let outcome = github(
            repository.owner.as_str(),
            repository.name.as_str(),
            profile,
            Some(asset_names),
            version_groups,
        );
        let shown = label_repository(repository.owner.as_str(), repository.name.as_str());
        let label = label_repository(repository.owner.as_str(), repository.name.as_str());
        proof {
            lemma_attempt_is_reported(
                first,
                before,
                *profile,
                added@,
                failed@,
                so_far,
                outcome,
                github_verdict(
                    repository.owner@,
                    repository.name@,
                    so_far.known,
                    filters,
                    Some(repository.asset_names.deep_view()),
                    groups,
                ),
                repository.name@,
                ModIdentifierView::GitHubRepository(repository.owner@, repository.name@),
                shown,
                label,
            );
        }
        match outcome {
            Ok(_) => {
                added.push(shown);
            },
            Err(error) => {
                failed.push((label, error));
            },
        }
        i += 1;
    }
    assert(response.gh_repos@.take(response.gh_repos.len() as int) =~= response.gh_repos@);
    (added, failed)
}

} // verus!
