//! The tool-versions file: its text, and where it lies.

use crate::asdf::parser::{records, tool_version_record, tool_version_records};
use crate::config::context::cwd_or_spec;
use crate::error::{AppError, AppErrorView};
use crate::paths::{home_dir, join_path, joined, parent_dir, parent_of};
use crate::search::{begin_spec, Probe, ProbeView, Search, Step};
use crate::text::{
    first_index, is_token, is_whitespace, join_words, lemma_first_index_is, lemma_lines_after_line,
    lemma_tokens_around_space, lemma_tokens_of_joined, lemma_tokens_of_token, lines, tokens,
    without_cr,
};
use crate::types::{SetScope, ToolVersion, ToolVersionView};
use vstd::prelude::*;
use vstd::string::*;

verus! {

/// The line that names a tool and its versions: `tool version1 version2 ...`.
pub open spec fn tool_version_line(entry: ToolVersionView) -> Seq<char> {
    entry.tool + seq![' '] + join_words(entry.versions)
}

/// The text of a tool-versions file: one line per entry, each ended by a
/// line feed, so that the text ends in a line feed unless it is empty.
pub open spec fn tool_versions_text(entries: Seq<ToolVersionView>) -> Seq<char>
    decreases entries.len(),
{
    if entries.len() == 0 {
        Seq::empty()
    } else {
        tool_version_line(entries[0]) + seq!['\n'] + tool_versions_text(entries.drop_first())
    }
}

/// Whether `s` can stand in a tool-versions file as a tool or a version: a
/// token without `#`.
pub open spec fn is_name(s: Seq<char>) -> bool {
    is_token(s) && forall|i: int| 0 <= i < s.len() ==> #[trigger] s[i] != '#'
}

/// Whether an entry is read back as it was written: its tool and each of its
/// versions is a token without `#`.
pub open spec fn writable(entry: ToolVersionView) -> bool {
    is_name(entry.tool) && forall|j: int|
        0 <= j < entry.versions.len() ==> is_name(#[trigger] entry.versions[j])
}

/// Whether every character of `s` is a space or could stand in a name.
pub open spec fn spaced_names(s: Seq<char>) -> bool {
    forall|i: int|
        0 <= i < s.len() ==> #[trigger] s[i] == ' ' || (!is_whitespace(s[i]) && s[i] != '#')
}

/// The words of `words` joined by single spaces, appended to `out`.
fn append_joined(out: &mut String, words: &Vec<String>)
    ensures
        final(out)@ == old(out)@ + join_words(words.deep_view()),
{
    let ghost start = out@;
    let ghost all = words.deep_view();
    let mut j: usize = 0;
    assert(all.take(0) =~= Seq::<Seq<char>>::empty());
    assert(start + join_words(all.take(0)) =~= start);
    while j < words.len()
        invariant
            j <= words@.len(),
            all == words.deep_view(),
            out@ == start + join_words(all.take(j as int)),
        decreases words@.len() - j,
    {
        let ghost before = all.take(j as int);
        let ghost after = all.take(j + 1);
        assert(after.drop_last() =~= before);
        assert(after.last() == words[j as int]@);
        if j > 0 {
            out.push(' ');
            out.append(words[j].as_str());
            assert(out@ =~= start + (join_words(before) + seq![' '] + words[j as int]@));
        } else {
            out.append(words[j].as_str());
            assert(join_words(before) =~= Seq::<char>::empty());
            assert(out@ =~= start + words[j as int]@);
        }
        j += 1;
    }
    assert(all.take(j as int) =~= all);
}

/// The text of a tool-versions file that holds `entries`.
pub fn render_tool_versions(entries: &Vec<ToolVersion>) -> (r: String)
    ensures
        r@ == tool_versions_text(entries.deep_view()),
{
    let ghost all = entries.deep_view();
    let mut out = String::new();
    let mut i: usize = 0;
    assert(all.skip(0) =~= all);
    assert(out@ + tool_versions_text(all) =~= tool_versions_text(all));
    while i < entries.len()
        invariant
            i <= entries@.len(),
            all == entries.deep_view(),
            out@ + tool_versions_text(all.skip(i as int)) == tool_versions_text(all),
        decreases entries@.len() - i,
    {
        let ghost before = out@;
        let ghost rest = all.skip(i as int);
        assert(rest[0] == entries[i as int].deep_view());
        assert(rest.drop_first() =~= all.skip(i + 1));
        out.append(entries[i].tool.as_str());
        out.push(' ');
        append_joined(&mut out, &entries[i].versions);
        out.push('\n');
        assert(out@ + tool_versions_text(all.skip(i + 1)) =~= before + (tool_version_line(rest[0])
            + seq!['\n'] + tool_versions_text(all.skip(i + 1))));
        i += 1;
    }
    assert(tool_versions_text(all.skip(i as int)) =~= Seq::<char>::empty());
    assert(out@ + Seq::<char>::empty() =~= out@);
    out
}

/// Names joined by spaces hold nothing but spaces and what names hold.
pub proof fn lemma_joined_names_spaced(words: Seq<Seq<char>>)
    requires
        forall|j: int| 0 <= j < words.len() ==> is_name(#[trigger] words[j]),
    ensures
        spaced_names(join_words(words)),
        words.len() > 0 ==> join_words(words).len() > 0 && !is_whitespace(join_words(words).last()),
    decreases words.len(),
{
    if words.len() == 0 {
    } else if words.len() == 1 {
        assert(is_name(words[0]));
    } else {
        let init = words.drop_last();
        let last = words.last();
        assert forall|j: int| 0 <= j < init.len() implies is_name(#[trigger] init[j]) by {
            assert(init[j] == words[j]);
        }
        lemma_joined_names_spaced(init);
        assert(is_name(last));
        let text = join_words(init) + seq![' '] + last;
        assert forall|i: int| 0 <= i < text.len() implies #[trigger] text[i] == ' ' || (
        !is_whitespace(text[i]) && text[i] != '#') by {
            if i < join_words(init).len() {
                assert(text[i] == join_words(init)[i]);
            } else if i == join_words(init).len() {
            } else {
                assert(text[i] == last[i - join_words(init).len() - 1]);
            }
        }
        assert(text.last() == last.last());
    }
}

/// The line of a writable entry reads back as that entry.
pub proof fn lemma_line_reads_back(entry: ToolVersionView)
    requires
        writable(entry),
    ensures
        tool_version_record(tool_version_line(entry)) == Some(entry),
        forall|i: int|
            0 <= i < tool_version_line(entry).len() ==> tool_version_line(entry)[i] != '\n',
        without_cr(tool_version_line(entry)) == tool_version_line(entry),
{
    let line = tool_version_line(entry);
    let tail = join_words(entry.versions);
    lemma_joined_names_spaced(entry.versions);
    assert(is_name(entry.tool));
    assert forall|i: int| 0 <= i < line.len() implies #[trigger] line[i] == ' ' || (!is_whitespace(
        line[i],
    ) && line[i] != '#') by {
        if i < entry.tool.len() {
            assert(line[i] == entry.tool[i]);
        } else if i == entry.tool.len() {
        } else {
            assert(line[i] == tail[i - entry.tool.len() - 1]);
        }
    }
    assert(is_whitespace('\n'));
    assert(is_whitespace('\r'));
    assert forall|i: int| 0 <= i < line.len() implies line[i] != '#' && line[i] != '\n' by {
        assert(line[i] == ' ' || (!is_whitespace(line[i]) && line[i] != '#'));
    }
    lemma_first_index_is(line, '#', line.len() as int);
    assert(line.take(line.len() as int) =~= line);
    assert(is_whitespace(' '));
    lemma_tokens_around_space(entry.tool, ' ', tail);
    lemma_tokens_of_token(entry.tool);
    assert forall|j: int| 0 <= j < entry.versions.len() implies is_token(
        #[trigger] entry.versions[j],
    ) by {
        assert(is_name(entry.versions[j]));
    }
    lemma_tokens_of_joined(entry.versions);
    let parts = tokens(line);
    assert(parts =~= seq![entry.tool] + entry.versions);
    assert(parts.drop_first() =~= entry.versions);
    if entry.versions.len() == 0 {
        assert(line.last() == ' ');
    } else {
        assert(line.last() == tail.last());
        assert(!is_whitespace(line.last()));
    }
}

/// Entries that are written to a tool-versions file and read back from it
/// are the entries that were written, provided that each tool and each
/// version is a token without `#`. (Any other entry is read back as
/// something else.)
pub proof fn lemma_tool_versions_round_trip(entries: Seq<ToolVersionView>)
    requires
        forall|i: int| 0 <= i < entries.len() ==> writable(#[trigger] entries[i]),
    ensures
        tool_version_records(tool_versions_text(entries)) == entries,
    decreases entries.len(),
{
    let f = |l: Seq<char>| tool_version_record(l);
    if entries.len() == 0 {
        assert(records(lines(tool_versions_text(entries)), f) =~= entries);
    } else {
        let first = entries[0];
        let rest = entries.drop_first();
        let line = tool_version_line(first);
        assert(writable(first));
        assert forall|i: int| 0 <= i < rest.len() implies writable(#[trigger] rest[i]) by {
            assert(rest[i] == entries[i + 1]);
        }
        lemma_tool_versions_round_trip(rest);
        lemma_line_reads_back(first);
        lemma_lines_after_line(line, tool_versions_text(rest));
        let later = lines(tool_versions_text(rest));
        let all = seq![line] + later;
        assert(all[0] == line);
        assert(all.drop_first() =~= later);
        assert(records(all, f) == seq![first] + records(later, f));
        assert(seq![first] + rest =~= entries);
    }
}

/// The tool-versions file of a directory.
pub open spec fn tool_versions_in(dir: Seq<char>) -> Seq<char> {
    joined(dir, ".tool-versions"@)
}

/// One candidate per directory: its tool-versions file.
pub open spec fn tool_versions_plan(dirs: Seq<Seq<char>>) -> Seq<ProbeView> {
    Seq::new(dirs.len(), |i: int| ProbeView::Candidate(tool_versions_in(dirs[i])))
}

/// How the tool-versions file of a scope is found. For the home scope it is
/// the file in the home directory, and there must be one. For the local
/// scope it is the file in the working directory. For the parent scope it
/// is the first file that exists in `dirs`, the working directory and the
/// directories above it, and the file in the working directory where none
/// exists.
pub open spec fn tool_versions_start(
    scope: SetScope,
    working_directory: Option<Seq<char>>,
    home: Option<Seq<char>>,
    dirs: Seq<Seq<char>>,
) -> crate::search::StepView {
    let local = tool_versions_in(cwd_or_spec(working_directory, home));
    match scope {
        SetScope::Home => crate::search::StepView::Done(
            match home {
                Some(h) => Ok(tool_versions_in(h)),
                None => Err(AppErrorView::ConfigError("cannot determine home directory"@)),
            },
        ),
        SetScope::Local => crate::search::StepView::Done(Ok(local)),
        SetScope::Parent => begin_spec(tool_versions_plan(dirs), Ok(local)),
    }
}

/// The working directory: the configured one, else the home directory, else
/// the empty path.
pub fn working_dir_of(working_directory: Option<&str>, home: Option<&str>) -> (r: String)
    ensures
        r@ == cwd_or_spec(working_directory.deep_view(), home.deep_view()),
{
    match working_directory {
        Some(d) => d.to_owned(),
        None => match home {
            Some(h) => h.to_owned(),
            None => String::new(),
        },
    }
}

/// Starts the search for the tool-versions file of `scope`, where `dirs`
/// are the directories to look in for the parent scope.
pub fn tool_versions_search(
    scope: SetScope,
    working_directory: Option<&str>,
    home: Option<&str>,
    dirs: &Vec<String>,
) -> (r: Step)
    ensures
        r.deep_view() == tool_versions_start(
            scope,
            working_directory.deep_view(),
            home.deep_view(),
            dirs.deep_view(),
        ),
{
    let cwd = working_dir_of(working_directory, home);
    let local = join_path(cwd.as_str(), ".tool-versions");
    match scope {
        SetScope::Home => match home {
            Some(h) => Step::Done(Ok(join_path(h, ".tool-versions"))),
            None => Step::Done(
                Err(AppError::ConfigError("cannot determine home directory".to_owned())),
            ),
        },
        SetScope::Local => Step::Done(Ok(local)),
        SetScope::Parent => {
            let ghost goal = tool_versions_plan(dirs.deep_view());
            let mut plan: Vec<Probe> = Vec::new();
            let mut i: usize = 0;
            assert(plan.deep_view() =~= goal.take(0));
            while i < dirs.len()
                invariant
                    i <= dirs@.len(),
                    goal == tool_versions_plan(dirs.deep_view()),
                    plan.deep_view() == goal.take(i as int),
                decreases dirs@.len() - i,
            {
                let ghost before = plan.deep_view();
                let probe = Probe::Candidate(join_path(dirs[i].as_str(), ".tool-versions"));
                plan.push(probe);
                assert(plan.deep_view() =~= before.push(probe.deep_view()));
                assert(before.push(probe.deep_view()) =~= goal.take(i + 1));
                i += 1;
            }
            assert(goal.take(i as int) =~= goal);
            Search::begin(plan, Ok(local))
        },
    }
}

/// Whether each directory but the first has a shorter path than the one
/// before it.
pub open spec fn shrinking(dirs: Seq<Seq<char>>) -> bool {
    forall|i: int| 0 < i < dirs.len() ==> (#[trigger] dirs[i]).len() < dirs[i - 1].len()
}

/// Whether `dirs` is `start` followed by the directories above it, nearest
/// first, up to the one that has none above it.
pub open spec fn is_ancestry(dirs: Seq<Seq<char>>, start: Seq<char>) -> bool {
    &&& dirs.len() >= 1
    &&& dirs[0] == start
    &&& forall|i: int| 0 <= i < dirs.len() - 1 ==> parent_of(#[trigger] dirs[i]) == Some(dirs[i + 1])
    &&& parent_of(dirs.last()) is None
}

/// `dir` and the directories above it, nearest first: each is the parent of
/// the one before it, and the last has no parent.
pub fn ancestors(dir: &str) -> (r: Vec<String>)
    ensures
        is_ancestry(r.deep_view(), dir@),
        shrinking(r.deep_view()),
{
    let mut out: Vec<String> = Vec::new();
    out.push(dir.to_owned());
    let mut climbing = true;
    while climbing
        invariant
            out@.len() >= 1,
            out.deep_view()[0] == dir@,
            shrinking(out.deep_view()),
            forall|i: int|
                0 <= i < out.deep_view().len() - 1 ==> parent_of(#[trigger] out.deep_view()[i])
                    == Some(out.deep_view()[i + 1]),
            !climbing ==> parent_of(out.deep_view().last()) is None,
        decreases out.deep_view().last().len(), (if climbing { 1int } else { 0int }),
    {
        let ghost before = out.deep_view();
        match parent_dir(out[out.len() - 1].as_str()) {
            Some(p) => {
                out.push(p);
                assert(out.deep_view() =~= before.push(p@));
            },
            None => {
                climbing = false;
            },
        }
    }
    out
}

/// Starts the search for the tool-versions file of `scope` with the home
/// directory that the environment names. Whatever it names, the search is
/// the one for some home directory or for none, over the working directory
/// and the directories above it.
pub fn get_tool_versions_path(scope: SetScope, working_directory: Option<&str>) -> (r: Step)
    ensures
        exists|home: Option<Seq<char>>, dirs: Seq<Seq<char>>|
            {
                &&& is_ancestry(dirs, cwd_or_spec(working_directory.deep_view(), home))
                &&& shrinking(dirs)
                &&& r.deep_view() == #[trigger] tool_versions_start(
                    scope,
                    working_directory.deep_view(),
                    home,
                    dirs,
                )
            },
{
    let home = home_dir();
    let home_ref: Option<&str> = match &home {
        Some(h) => Some(h.as_str()),
        None => None,
    };
    let cwd = working_dir_of(working_directory, home_ref);
    let dirs = ancestors(cwd.as_str());
    let r = tool_versions_search(scope, working_directory, home_ref, &dirs);
    assert(r.deep_view() == tool_versions_start(
        scope,
        working_directory.deep_view(),
        home_ref.deep_view(),
        dirs.deep_view(),
    ));
    r
}

} // verus!
