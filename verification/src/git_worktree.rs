//! The isolated working copy of a session: where it lives, which commands
//! of the version-control tool create, commit and remove it, and what their
//! outcomes mean. Running the commands is left to the caller; every function
//! here takes the outcome of one step and decides the next.

use vstd::prelude::*;
use crate::error::{ErrorView, SessionError};
use crate::events::DiffStats;
use crate::outside::{join_path, parent_of, path_join, path_parent};
use crate::text::{
    char_is_digit, chars_occur_at, contains, count_of, digit_run, has_substring, is_digit,
    lemma_digit_run_is, lines_of, occurs_at, parse_count, split_lines, texts, to_chars, trim,
    trimmed,
};

verus! {

/// The program that every [`GitCommand`] runs.
pub const VCS_PROGRAM: &'static str = "git";

/// The working copy of one session on a branch of its own.
#[derive(Debug)]
pub struct GitWorktree {
    pub repo_path: String,
    pub worktree_path: String,
    pub branch_name: String,
}

/// Mathematical model of a [`GitWorktree`].
pub struct GitWorktreeView {
    pub repo_path: Seq<char>,
    pub worktree_path: Seq<char>,
    pub branch_name: Seq<char>,
}

impl View for GitWorktree {
    type V = GitWorktreeView;

    open spec fn view(&self) -> GitWorktreeView {
        GitWorktreeView {
            repo_path: self.repo_path@,
            worktree_path: self.worktree_path@,
            branch_name: self.branch_name@,
        }
    }
}

/// One invocation of the version-control tool: the directory to run it in
/// and its arguments.
#[derive(Debug)]
pub struct GitCommand {
    pub cwd: String,
    pub args: Vec<String>,
}

/// What one invocation of the version-control tool gave back.
#[derive(Debug)]
pub struct GitOutput {
    pub success: bool,
    pub stdout: String,
    pub stderr: String,
}

/// Something for the caller to carry out.
#[derive(Debug)]
pub enum VcsAction {
    /// Run the tool and report its output.
    Run(GitCommand),
    /// Create the directory and every missing parent of it.
    MakeDir(String),
}

/// What became of an action.
#[derive(Debug)]
pub enum Outcome {
    /// The action could not be carried out at all.
    Failed,
    /// The directory exists now.
    DirCreated,
    /// The tool ran and gave this output.
    Finished(GitOutput),
}

/// Where an operation of several steps stands: at a step whose action is to
/// be carried out next, or at its end.
#[derive(Debug)]
pub enum Progress<S> {
    Continue { step: S, action: VcsAction },
    Done(Result<(), SessionError>),
}

/// The steps of creating a workspace.
#[derive(Debug)]
pub enum CreateStep {
    /// Asking the tool whether the project is a repository.
    CheckRepo,
    /// Asking the tool for the project's current branch.
    ReadBranch,
    /// Creating the directory that will hold the workspace; carries the
    /// branch to base the workspace on.
    MakeParent { base: String },
    /// Adding the working copy on its new branch.
    AddWorktree,
}

/// The steps of removing a workspace.
#[derive(Debug, Clone, Copy, PartialEq, Eq, Structural)]
pub enum RemoveStep {
    /// Detaching the working copy.
    DetachWorktree,
    /// Deleting the branch.
    DeleteBranch,
}

/// The steps of committing pending work.
#[derive(Debug)]
pub enum CommitStep {
    /// Staging every change; carries the commit message.
    StageAll { message: String },
    /// Committing what was staged.
    Commit,
}

/// The first eight characters of a session identifier.
pub open spec fn id_head(session_id: Seq<char>) -> Seq<char> {
    session_id.take(8)
}

/// The branch of the session `session_id` under the prefix `prefix`.
pub open spec fn branch_name_of(prefix: Seq<char>, session_id: Seq<char>) -> Seq<char> {
    prefix + seq!['-'] + id_head(session_id)
}

/// The directory that holds the workspaces of the repository at `repo`: it
/// stands beside the repository, or in it where the repository has no
/// parent.
pub open spec fn workspace_root_of(repo: Seq<char>) -> Seq<char> {
    let beside = match path_parent(repo) {
        Some(parent) => parent,
        None => repo,
    };
    path_join(beside, ".session-workspaces"@)
}

/// The workspace of the session `session_id` for the repository at `repo`.
pub open spec fn workspace_path_of(repo: Seq<char>, session_id: Seq<char>) -> Seq<char> {
    path_join(workspace_root_of(repo), "session-"@ + id_head(session_id))
}

/// A run of the tool with the arguments `args` in the directory `cwd`.
pub open spec fn is_run(action: VcsAction, cwd: Seq<char>, args: Seq<Seq<char>>) -> bool {
    action matches VcsAction::Run(command) && command.cwd@ == cwd && texts(command.args@) == args
}

/// The operation has ended with success.
pub open spec fn is_done_ok<S>(progress: Progress<S>) -> bool {
    progress matches Progress::Done(result) && result is Ok
}

/// The operation has ended with the error `error`.
pub open spec fn is_done_err<S>(progress: Progress<S>, error: ErrorView) -> bool {
    progress matches Progress::Done(result) && result matches Err(e) && e@ == error
}

/// Arguments that ask whether a directory is inside a repository.
pub open spec fn check_repo_args() -> Seq<Seq<char>> {
    seq!["rev-parse"@, "--git-dir"@]
}

/// Arguments that ask for the name of the current branch.
pub open spec fn read_branch_args() -> Seq<Seq<char>> {
    seq!["rev-parse"@, "--abbrev-ref"@, "HEAD"@]
}

/// Arguments that add the working copy on its new branch, based on `base`.
pub open spec fn add_worktree_args(worktree: GitWorktreeView, base: Seq<char>) -> Seq<Seq<char>> {
    seq!["worktree"@, "add"@, "-b"@, worktree.branch_name, worktree.worktree_path, base]
}

/// Arguments that forcibly detach the working copy.
pub open spec fn detach_args(worktree: GitWorktreeView) -> Seq<Seq<char>> {
    seq!["worktree"@, "remove"@, "--force"@, worktree.worktree_path]
}

/// Arguments that delete the branch.
pub open spec fn delete_branch_args(worktree: GitWorktreeView) -> Seq<Seq<char>> {
    seq!["branch"@, "-D"@, worktree.branch_name]
}

/// Arguments that summarize the changes in a working copy.
pub open spec fn diff_args() -> Seq<Seq<char>> {
    seq!["diff"@, "--stat"@, "--no-color"@]
}

/// Arguments that stage every change.
pub open spec fn stage_args() -> Seq<Seq<char>> {
    seq!["add"@, "-A"@]
}

/// Arguments that commit what is staged under `message`.
pub open spec fn commit_args(message: Seq<char>) -> Seq<Seq<char>> {
    seq!["commit"@, "-m"@, message]
}

/// Whether the tool, having failed to detach a working copy, reports that
/// there was none.
pub open spec fn reports_no_worktree(output: GitOutput) -> bool {
    has_substring(output.stderr@, "not a working tree"@)
}

/// Whether the tool reports that there was nothing to commit.
pub open spec fn reports_nothing_to_commit(output: GitOutput) -> bool {
    has_substring(output.stderr@, "nothing to commit"@) || has_substring(
        output.stdout@,
        "nothing to commit"@,
    )
}

/// What follows the step `step` of creating `worktree` once its action came
/// to `outcome`.
pub open spec fn create_follows(
    worktree: GitWorktreeView,
    step: CreateStep,
    outcome: Outcome,
    next: Progress<CreateStep>,
) -> bool {
    match step {
        CreateStep::CheckRepo => match outcome {
            Outcome::Finished(output) => if output.success {
                next matches Progress::Continue { step: CreateStep::ReadBranch, action }
                    && is_run(action, worktree.repo_path, read_branch_args())
            } else {
                is_done_err(next, ErrorView::NotARepo(worktree.repo_path))
            },
            _ => is_done_err(
                next,
                ErrorView::VcsCreateFailed("Failed to check if directory is a git repo"@),
            ),
        },
        CreateStep::ReadBranch => match outcome {
            Outcome::Finished(output) => if output.success {
                match path_parent(worktree.worktree_path) {
                    Some(parent) => next matches Progress::Continue {
                        step: CreateStep::MakeParent { base },
                        action: VcsAction::MakeDir(dir),
                    } && base@ == trimmed(output.stdout@) && dir@ == parent,
                    None => next matches Progress::Continue {
                        step: CreateStep::AddWorktree,
                        action,
                    } && is_run(
                        action,
                        worktree.repo_path,
                        add_worktree_args(worktree, trimmed(output.stdout@)),
                    ),
                }
            } else {
                is_done_err(next, ErrorView::VcsCreateFailed("Failed to get current branch"@))
            },
            _ => is_done_err(next, ErrorView::VcsCreateFailed("Failed to get current branch"@)),
        },
        CreateStep::MakeParent { base } => match outcome {
            Outcome::DirCreated => next matches Progress::Continue {
                step: CreateStep::AddWorktree,
                action,
            } && is_run(action, worktree.repo_path, add_worktree_args(worktree, base@)),
            _ => is_done_err(next, ErrorView::FilesystemFailed),
        },
        CreateStep::AddWorktree => match outcome {
            Outcome::Finished(output) => if output.success {
                is_done_ok(next)
            } else {
                is_done_err(next, ErrorView::VcsCreateFailed(output.stderr@))
            },
            _ => is_done_err(next, ErrorView::VcsCreateFailed("Failed to create git worktree"@)),
        },
    }
}

/// What follows the step `step` of removing `worktree` once its action came
/// to `outcome`. A tool that finds no working copy to detach is no failure,
/// and the outcome of deleting the branch is not looked at.
pub open spec fn remove_follows(
    worktree: GitWorktreeView,
    step: RemoveStep,
    outcome: Outcome,
    next: Progress<RemoveStep>,
) -> bool {
    match step {
        RemoveStep::DetachWorktree => match outcome {
            Outcome::Finished(output) => if output.success || reports_no_worktree(output) {
                next matches Progress::Continue { step: RemoveStep::DeleteBranch, action }
                    && is_run(action, worktree.repo_path, delete_branch_args(worktree))
            } else {
                is_done_err(next, ErrorView::VcsRemoveFailed(output.stderr@))
            },
            _ => is_done_err(next, ErrorView::VcsRemoveFailed("Failed to remove git worktree"@)),
        },
        RemoveStep::DeleteBranch => is_done_ok(next),
    }
}

/// What follows the step `step` of committing in `worktree` once its action
/// came to `outcome`. Staging only has to run; a commit that fails because
/// there was nothing to commit is no failure.
pub open spec fn commit_follows(
    worktree: GitWorktreeView,
    step: CommitStep,
    outcome: Outcome,
    next: Progress<CommitStep>,
) -> bool {
    match step {
        CommitStep::StageAll { message } => match outcome {
            Outcome::Finished(_) => next matches Progress::Continue {
                step: CommitStep::Commit,
                action,
            } && is_run(action, worktree.worktree_path, commit_args(message@)),
            _ => is_done_err(next, ErrorView::VcsCommitFailed("Failed to stage changes"@)),
        },
        CommitStep::Commit => match outcome {
            Outcome::Finished(output) => if output.success || reports_nothing_to_commit(output) {
                is_done_ok(next)
            } else {
                is_done_err(next, ErrorView::VcsCommitFailed(output.stderr@))
            },
            _ => is_done_err(next, ErrorView::VcsCommitFailed("Failed to commit changes"@)),
        },
    }
}

/// Removing is idempotent as far as the tool's answers go. Where the tool
/// detached the working copy, or reports that there is none, because it
/// was removed before or never existed, the removal goes on to delete the
/// branch and then succeeds, whatever comes of deleting the branch.
pub proof fn lemma_remove_of_missing_worktree(
    worktree: GitWorktreeView,
    output: GitOutput,
    after_detach: Progress<RemoveStep>,
    deleted: Outcome,
    after_delete: Progress<RemoveStep>,
)
    requires
        output.success || reports_no_worktree(output),
        remove_follows(
            worktree,
            RemoveStep::DetachWorktree,
            Outcome::Finished(output),
            after_detach,
        ),
        remove_follows(worktree, RemoveStep::DeleteBranch, deleted, after_delete),
    ensures
        after_detach matches Progress::Continue { step: RemoveStep::DeleteBranch, action }
            && is_run(action, worktree.repo_path, delete_branch_args(worktree)),
        is_done_ok(after_delete),
{
}

/// Committing succeeds exactly where the tool committed or had nothing to
/// commit; any other answer is a failure that carries what the tool wrote
/// to standard error.
pub proof fn lemma_commit_outcome(
    worktree: GitWorktreeView,
    output: GitOutput,
    next: Progress<CommitStep>,
)
    requires
        commit_follows(worktree, CommitStep::Commit, Outcome::Finished(output), next),
    ensures
        is_done_ok(next) <==> output.success || reports_nothing_to_commit(output),
        !is_done_ok(next) ==> is_done_err(next, ErrorView::VcsCommitFailed(output.stderr@)),
{
}

/// The index after an optional plural `s` at `at`.
pub open spec fn skip_plural(line: Seq<char>, at: int) -> int {
    if 0 <= at < line.len() && line[at] == 's' {
        at + 1
    } else {
        at
    }
}

/// A count followed by `noun`, an optional plural `s` and `tail`, all
/// starting at `at`: the count and the index after the tail.
pub open spec fn counted_at(line: Seq<char>, at: int, noun: Seq<char>, tail: Seq<char>) -> Option<
    (usize, int),
> {
    let digits = digit_run(line, at);
    let after = skip_plural(line, at + digits + noun.len());
    if digits > 0 && occurs_at(line, noun, at + digits) && occurs_at(line, tail, after) {
        Some((count_of(line.subrange(at, at + digits)), after + tail.len()))
    } else {
        None
    }
}

/// An optional part of the summary at `at`: a comma and a space, then a
/// count with its noun and tail. Gives the count and the index after the
/// part, or zero and `at` where the part is not there.
pub open spec fn optional_count(line: Seq<char>, at: int, noun: Seq<char>, tail: Seq<char>) -> (
    usize,
    int,
) {
    if occurs_at(line, ", "@, at) {
        match counted_at(line, at + 2, noun, tail) {
            Some(found) => found,
            None => (0, at),
        }
    } else {
        (0, at)
    }
}

/// The summary that starts at `at` in `line`, if one does: `N file changed`
/// or `N files changed`, then optionally `, N insertion(+)` or
/// `, N insertions(+)`, then optionally `, N deletion(-)` or
/// `, N deletions(-)`. A count that is left out is zero.
pub open spec fn summary_at(line: Seq<char>, at: int) -> Option<DiffStats> {
    match counted_at(line, at, " file"@, " changed"@) {
        Some((files_changed, end)) => {
            let (insertions, end) = optional_count(line, end, " insertion"@, "(+)"@);
            let (deletions, _) = optional_count(line, end, " deletion"@, "(-)"@);
            Some(DiffStats { files_changed, insertions, deletions })
        },
        None => None,
    }
}

/// The leftmost summary of `line` that starts at `from` or later.
pub open spec fn summary_from(line: Seq<char>, from: int) -> Option<DiffStats>
    decreases line.len() - from,
{
    if from < 0 || from >= line.len() {
        None
    } else {
        match summary_at(line, from) {
            Some(stats) => Some(stats),
            None => summary_from(line, from + 1),
        }
    }
}

/// The summary of the last of `lines` that holds one, or zeros where none
/// does.
pub open spec fn last_summary(lines: Seq<Seq<char>>) -> DiffStats
    decreases lines.len(),
{
    if lines.len() == 0 {
        DiffStats::zero()
    } else {
        match summary_from(lines.last(), 0) {
            Some(stats) => stats,
            None => last_summary(lines.drop_last()),
        }
    }
}

/// The diff summary that the tool's output `output` reports.
pub open spec fn diff_stats_of(output: Seq<char>) -> DiffStats {
    last_summary(lines_of(output))
}

/// The words of a summary line, as characters.
pub struct SummaryWords {
    pub file: Vec<char>,
    pub changed: Vec<char>,
    pub comma: Vec<char>,
    pub insertion: Vec<char>,
    pub plus: Vec<char>,
    pub deletion: Vec<char>,
    pub minus: Vec<char>,
}

impl SummaryWords {
    /// Each field holds its word.
    pub open spec fn wf(&self) -> bool {
        &&& self.file@ == " file"@
        &&& self.changed@ == " changed"@
        &&& self.comma@ == ", "@
        &&& self.insertion@ == " insertion"@
        &&& self.plus@ == "(+)"@
        &&& self.deletion@ == " deletion"@
        &&& self.minus@ == "(-)"@
    }

    /// The words of a summary line.
    pub fn new() -> (words: SummaryWords)
        ensures
            words.wf(),
    {
        SummaryWords {
            file: to_chars(" file"),
            changed: to_chars(" changed"),
            comma: to_chars(", "),
            insertion: to_chars(" insertion"),
            plus: to_chars("(+)"),
            deletion: to_chars(" deletion"),
            minus: to_chars("(-)"),
        }
    }
}

/// Whether `needle` stands in `hay` at `at`, wherever `at` points.
pub fn chars_occur(hay: &Vec<char>, needle: &Vec<char>, at: usize) -> (b: bool)
    ensures
        b == occurs_at(hay@, needle@, at as int),
{
    if at > hay.len() || needle.len() > hay.len() - at {
        false
    } else {
        chars_occur_at(hay, needle, at)
    }
}

/// Reads a count with its noun and tail at `at`.
pub fn read_counted(line: &Vec<char>, at: usize, noun: &Vec<char>, tail: &Vec<char>) -> (found:
    Option<(usize, usize)>)
    requires
        at <= line@.len(),
    ensures
        match counted_at(line@, at as int, noun@, tail@) {
            Some((count, end)) => found matches Some(f) && f.0 == count && f.1 == end && at < end
                <= line@.len(),
            None => found is None,
        },
{
    let len = line.len();
    let mut end: usize = at;
    while end < len && char_is_digit(line[end])
        invariant
            len == line@.len(),
            at <= end <= len,
            forall|k: int| at <= k < end ==> is_digit(line@[k]),
        decreases len - end,
    {
        end += 1;
    }
    proof {
        lemma_digit_run_is(line@, at as int, end - at);
    }
    if end == at {
        return None;
    }
    if !chars_occur(line, noun, end) {
        return None;
    }
    let mut after: usize = end + noun.len();
    if after < len && line[after] == 's' {
        after += 1;
    }
    if !chars_occur(line, tail, after) {
        return None;
    }
    Some((parse_count(line, at, end), after + tail.len()))
}

/// Reads an optional part of the summary at `at`.
pub fn read_optional(
    line: &Vec<char>,
    at: usize,
    words: &SummaryWords,
    noun: &Vec<char>,
    tail: &Vec<char>,
) -> (found: (usize, usize))
    requires
        at <= line@.len(),
        words.wf(),
    ensures
        found.1 <= line@.len(),
        found.0 == optional_count(line@, at as int, noun@, tail@).0,
        found.1 == optional_count(line@, at as int, noun@, tail@).1,
{
    let len = line.len();
    if chars_occur(line, &words.comma, at) {
        proof {
            reveal_strlit(", ");
            assert(", "@.len() == 2);
            assert(at + 2 <= len);
        }
        match read_counted(line, at + 2, noun, tail) {
            Some(found) => found,
            None => (0, at),
        }
    } else {
        (0, at)
    }
}

/// Reads the summary that starts at `at`, if one does.
pub fn read_summary(line: &Vec<char>, at: usize, words: &SummaryWords) -> (stats: Option<DiffStats>)
    requires
        at <= line@.len(),
        words.wf(),
    ensures
        stats == summary_at(line@, at as int),
{
    match read_counted(line, at, &words.file, &words.changed) {
        Some((files_changed, end)) => {
            let (insertions, end) = read_optional(line, end, words, &words.insertion, &words.plus);
            let (deletions, _) = read_optional(line, end, words, &words.deletion, &words.minus);
            Some(DiffStats { files_changed, insertions, deletions })
        },
        None => None,
    }
}

/// Finds the leftmost summary of one line.
pub fn find_summary(line: &str, words: &SummaryWords) -> (stats: Option<DiffStats>)
    requires
        words.wf(),
    ensures
        stats == summary_from(line@, 0),
{
    let chars = to_chars(line);
    let len = chars.len();
    let mut at: usize = 0;
    while at < len
        invariant
            chars@ == line@,
            len == chars@.len(),
            at <= len,
            words.wf(),
            summary_from(line@, 0) == summary_from(line@, at as int),
        decreases len - at,
    {
        match read_summary(&chars, at, words) {
            Some(stats) => {
                return Some(stats);
            },
            None => {},
        }
        at += 1;
    }
    None
}

impl GitWorktree {
    /// The workspace of the session `session_id` for the repository at
    /// `repo_path`: on the branch `<prefix>-<head>` and in the directory
    /// `session-<head>` under `.session-workspaces` beside the repository,
    /// `<head>` being the first eight characters of the identifier.
    pub fn new(repo_path: String, session_id: &str, branch_prefix: &str) -> (result: Result<
        GitWorktree,
        SessionError,
    >)
        requires
            session_id@.len() >= 8,
        ensures
            result matches Ok(worktree) && worktree@ == (GitWorktreeView {
                repo_path: repo_path@,
                worktree_path: workspace_path_of(repo_path@, session_id@),
                branch_name: branch_name_of(branch_prefix@, session_id@),
            }),
            result matches Ok(worktree) && worktree@.worktree_path.len() > 0
                && worktree@.branch_name.len() > 0,
    {
        let head = session_id.substring_char(0, 8);
        let mut branch_name = branch_prefix.to_owned();
        branch_name.append("-");
        branch_name.append(head);
        let mut worktree_name = "session-".to_owned();
        worktree_name.append(head);
        let beside = match parent_of(repo_path.as_str()) {
            Some(parent) => parent,
            None => repo_path.clone(),
        };
        let root = join_path(beside.as_str(), ".session-workspaces");
        let worktree_path = join_path(root.as_str(), worktree_name.as_str());
        proof {
            reveal_strlit("-");
            reveal_strlit("session-");
            assert("-"@ =~= seq!['-']);
            assert(branch_name@ =~= branch_name_of(branch_prefix@, session_id@));
            assert(worktree_name@.len() > 0);
        }
        Ok(GitWorktree { repo_path, worktree_path, branch_name })
    }

    /// A run of the tool in `cwd` with the arguments `args`.
    fn run(cwd: &String, args: Vec<String>) -> (action: VcsAction)
        ensures
            is_run(action, cwd@, texts(args@)),
    {
        VcsAction::Run(GitCommand { cwd: cwd.clone(), args })
    }

    /// The run that adds the working copy on its new branch, based on
    /// `base`.
    fn add_worktree(&self, base: String) -> (action: VcsAction)
        ensures
            is_run(action, self@.repo_path, add_worktree_args(self@, base@)),
    {
        let mut args: Vec<String> = Vec::new();
        args.push("worktree".to_owned());
        args.push("add".to_owned());
        args.push("-b".to_owned());
        args.push(self.branch_name.clone());
        args.push(self.worktree_path.clone());
        args.push(base);
        assert(texts(args@) =~= add_worktree_args(self@, base@));
        Self::run(&self.repo_path, args)
    }

    /// Starts creating the workspace: the first step asks the tool whether
    /// the project is a repository.
    pub fn create(&self) -> (first: Progress<CreateStep>)
        ensures
            first matches Progress::Continue { step: CreateStep::CheckRepo, action } && is_run(
                action,
                self@.repo_path,
                check_repo_args(),
            ),
    {
        let mut args: Vec<String> = Vec::new();
        args.push("rev-parse".to_owned());
        args.push("--git-dir".to_owned());
        assert(texts(args@) =~= check_repo_args());
        Progress::Continue { step: CreateStep::CheckRepo, action: Self::run(&self.repo_path, args) }
    }

    /// Whether the tool found the project to be a repository.
    pub fn is_git_repo(outcome: &Outcome) -> (result: Result<bool, SessionError>)
        ensures
            match *outcome {
                Outcome::Finished(output) => result == Ok::<bool, SessionError>(output.success),
                _ => result matches Err(e) && e@ == ErrorView::VcsCreateFailed(
                    "Failed to check if directory is a git repo"@,
                ),
            },
    {
        match outcome {
            Outcome::Finished(output) => Ok(output.success),
            _ => Err(
                SessionError::VcsCreateFailed(
                    "Failed to check if directory is a git repo".to_owned(),
                ),
            ),
        }
    }

    /// The current branch as the tool printed it, without surrounding
    /// whitespace.
    pub fn get_current_branch(outcome: &Outcome) -> (result: Result<String, SessionError>)
        ensures
            match *outcome {
                Outcome::Finished(output) => if output.success {
                    result matches Ok(branch) && branch@ == trimmed(output.stdout@)
                } else {
                    result matches Err(e) && e@ == ErrorView::VcsCreateFailed(
                        "Failed to get current branch"@,
                    )
                },
                _ => result matches Err(e) && e@ == ErrorView::VcsCreateFailed(
                    "Failed to get current branch"@,
                ),
            },
    {
        match outcome {
            Outcome::Finished(output) => {
                if output.success {
                    Ok(trim(output.stdout.as_str()))
                } else {
                    Err(SessionError::VcsCreateFailed("Failed to get current branch".to_owned()))
                }
            },
            _ => Err(SessionError::VcsCreateFailed("Failed to get current branch".to_owned())),
        }
    }

    /// Takes the outcome of one step of creating the workspace and decides
    /// what follows: the project must be a repository, its current branch
    /// becomes the base, the directory that holds the workspace is created,
    /// and the working copy is added on its new branch.
    pub fn create_next(&self, step: CreateStep, outcome: Outcome) -> (next: Progress<CreateStep>)
        ensures
            create_follows(self@, step, outcome, next),
    {
        match step {
            CreateStep::CheckRepo => {
                match Self::is_git_repo(&outcome) {
                    Ok(true) => {
                        let mut args: Vec<String> = Vec::new();
                        args.push("rev-parse".to_owned());
                        args.push("--abbrev-ref".to_owned());
                        args.push("HEAD".to_owned());
                        assert(texts(args@) =~= read_branch_args());
                        Progress::Continue {
                            step: CreateStep::ReadBranch,
                            action: Self::run(&self.repo_path, args),
                        }
                    },
                    Ok(false) => Progress::Done(
                        Err(SessionError::NotARepo(self.repo_path.clone())),
                    ),
                    Err(e) => Progress::Done(Err(e)),
                }
            },
            CreateStep::ReadBranch => {
                match Self::get_current_branch(&outcome) {
                    Ok(base) => {
                        match parent_of(self.worktree_path.as_str()) {
                            Some(parent) => Progress::Continue {
                                step: CreateStep::MakeParent { base },
                                action: VcsAction::MakeDir(parent),
                            },
                            None => Progress::Continue {
                                step: CreateStep::AddWorktree,
                                action: self.add_worktree(base),
                            },
                        }
                    },
                    Err(e) => Progress::Done(Err(e)),
                }
            },
            CreateStep::MakeParent { base } => {
                match outcome {
                    Outcome::DirCreated => Progress::Continue {
                        step: CreateStep::AddWorktree,
                        action: self.add_worktree(base),
                    },
                    _ => Progress::Done(Err(SessionError::FilesystemFailed)),
                }
            },
            CreateStep::AddWorktree => {
                match outcome {
                    Outcome::Finished(output) => {
                        if output.success {
                            Progress::Done(Ok(()))
                        } else {
                            Progress::Done(Err(SessionError::VcsCreateFailed(output.stderr)))
                        }
                    },
                    _ => Progress::Done(
                        Err(
                            SessionError::VcsCreateFailed(
                                "Failed to create git worktree".to_owned(),
                            ),
                        ),
                    ),
                }
            },
        }
    }

    /// Starts removing the workspace: the first step forcibly detaches the
    /// working copy.
    pub fn remove(&self) -> (first: Progress<RemoveStep>)
        ensures
            first matches Progress::Continue { step: RemoveStep::DetachWorktree, action }
                && is_run(action, self@.repo_path, detach_args(self@)),
    {
        let mut args: Vec<String> = Vec::new();
        args.push("worktree".to_owned());
        args.push("remove".to_owned());
        args.push("--force".to_owned());
        args.push(self.worktree_path.clone());
        assert(texts(args@) =~= detach_args(self@));
        Progress::Continue {
            step: RemoveStep::DetachWorktree,
            action: Self::run(&self.repo_path, args),
        }
    }

    /// Takes the outcome of one step of removing the workspace and decides
    /// what follows. Detaching a working copy that does not exist counts as
    /// done, so removing twice succeeds twice; then the branch is deleted,
    /// whatever comes of that.
    pub fn remove_next(&self, step: RemoveStep, outcome: Outcome) -> (next: Progress<RemoveStep>)
        ensures
            remove_follows(self@, step, outcome, next),
    {
        match step {
            RemoveStep::DetachWorktree => {
                match outcome {
                    Outcome::Finished(output) => {
                        if output.success || contains(
                            output.stderr.as_str(),
                            "not a working tree",
                        ) {
                            let mut args: Vec<String> = Vec::new();
                            args.push("branch".to_owned());
                            args.push("-D".to_owned());
                            args.push(self.branch_name.clone());
                            assert(texts(args@) =~= delete_branch_args(self@));
                            Progress::Continue {
                                step: RemoveStep::DeleteBranch,
                                action: Self::run(&self.repo_path, args),
                            }
                        } else {
                            Progress::Done(Err(SessionError::VcsRemoveFailed(output.stderr)))
                        }
                    },
                    _ => Progress::Done(
                        Err(
                            SessionError::VcsRemoveFailed(
                                "Failed to remove git worktree".to_owned(),
                            ),
                        ),
                    ),
                }
            },
            RemoveStep::DeleteBranch => Progress::Done(Ok(())),
        }
    }

    /// Starts committing the pending work of the workspace under `message`:
    /// the first step stages every change.
    pub fn commit_changes(&self, message: &str) -> (first: Progress<CommitStep>)
        ensures
            first matches Progress::Continue { step: CommitStep::StageAll { message: m }, action }
                && m@ == message@ && is_run(action, self@.worktree_path, stage_args()),
    {
        let mut args: Vec<String> = Vec::new();
        args.push("add".to_owned());
        args.push("-A".to_owned());
        assert(texts(args@) =~= stage_args());
        Progress::Continue {
            step: CommitStep::StageAll { message: message.to_owned() },
            action: Self::run(&self.worktree_path, args),
        }
    }

    /// Takes the outcome of one step of committing and decides what follows.
    /// A commit that the tool refuses because nothing was pending counts as
    /// done.
    pub fn commit_next(&self, step: CommitStep, outcome: Outcome) -> (next: Progress<CommitStep>)
        ensures
            commit_follows(self@, step, outcome, next),
    {
        match step {
            CommitStep::StageAll { message } => {
                match outcome {
                    Outcome::Finished(_) => {
                        let mut args: Vec<String> = Vec::new();
                        args.push("commit".to_owned());
                        args.push("-m".to_owned());
                        args.push(message);
                        assert(texts(args@) =~= commit_args(message@));
                        Progress::Continue {
                            step: CommitStep::Commit,
                            action: Self::run(&self.worktree_path, args),
                        }
                    },
                    _ => Progress::Done(
                        Err(SessionError::VcsCommitFailed("Failed to stage changes".to_owned())),
                    ),
                }
            },
            CommitStep::Commit => {
                match outcome {
                    Outcome::Finished(output) => {
                        if output.success || contains(output.stderr.as_str(), "nothing to commit")
                            || contains(output.stdout.as_str(), "nothing to commit") {
                            Progress::Done(Ok(()))
                        } else {
                            Progress::Done(Err(SessionError::VcsCommitFailed(output.stderr)))
                        }
                    },
                    _ => Progress::Done(
                        Err(SessionError::VcsCommitFailed("Failed to commit changes".to_owned())),
                    ),
                }
            },
        }
    }

    /// The run that summarizes the changes in the workspace.
    pub fn diff_command(&self) -> (action: VcsAction)
        ensures
            is_run(action, self@.worktree_path, diff_args()),
    {
        let mut args: Vec<String> = Vec::new();
        args.push("diff".to_owned());
        args.push("--stat".to_owned());
        args.push("--no-color".to_owned());
        assert(texts(args@) =~= diff_args());
        Self::run(&self.worktree_path, args)
    }

    /// Reads the summary line of the tool's diff output, scanning from the
    /// bottom: the last line that holds a summary decides, and its leftmost
    /// summary is taken. Counts that are left out are zero; so is every
    /// count where no line holds a summary.
    pub fn parse_diff_stats(output: &str) -> (stats: DiffStats)
        ensures
            stats == diff_stats_of(output@),
    {
        let words = SummaryWords::new();
        let lines = split_lines(output);
        let mut i: usize = lines.len();
        assert(texts(lines@).take(i as int) =~= texts(lines@));
        while i > 0
            invariant
                i <= lines@.len(),
                words.wf(),
                texts(lines@) == lines_of(output@),
                diff_stats_of(output@) == last_summary(texts(lines@).take(i as int)),
            decreases i,
        {
            let ghost upto = texts(lines@).take(i as int);
            proof {
                assert(upto.last() == lines@[i - 1]@);
                assert(upto.drop_last() =~= texts(lines@).take(i - 1));
            }
            match find_summary(lines[i - 1].as_str(), &words) {
                Some(stats) => {
                    return stats;
                },
                None => {},
            }
            i -= 1;
        }
        DiffStats::zeros()
    }

    /// The diff summary of the workspace, given what came of the run of
    /// [`GitWorktree::diff_command`]: what its output reports, or zeros
    /// where the tool did not run or failed.
    pub fn get_diff_stats(&self, outcome: &Outcome) -> (stats: DiffStats)
        ensures
            stats == match *outcome {
                Outcome::Finished(output) => if output.success {
                    diff_stats_of(output.stdout@)
                } else {
                    DiffStats::zero()
                },
                _ => DiffStats::zero(),
            },
    {
        match outcome {
            Outcome::Finished(output) => {
                if output.success {
                    Self::parse_diff_stats(output.stdout.as_str())
                } else {
                    DiffStats::zeros()
                }
            },
            _ => DiffStats::zeros(),
        }
    }
}

impl Clone for GitWorktree {
    fn clone(&self) -> (c: GitWorktree)
        ensures
            c@ == self@,
    {
        GitWorktree {
            repo_path: self.repo_path.clone(),
            worktree_path: self.worktree_path.clone(),
            branch_name: self.branch_name.clone(),
        }
    }
}

} // verus!
