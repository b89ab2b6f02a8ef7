//! Publishing the selected commits: a state machine that says which version
//! control step comes next, and what the outcome of each step leads to. The
//! steps themselves are run by the caller.
use vstd::prelude::*;

use crate::commit::{Commit, CommitView};
use crate::resolve::{
    branch_name, branch_name_of, pr_url_of, pull_request_url, push_command, push_command_of,
    remote_branch_name, remote_branch_of,
};
use crate::selection::filter_selected;
use crate::text::{chars_of, contains_seq, contains_text};

verus! {

/// How one step went. A replay that would change nothing is told apart from a
/// replay that fails.
#[derive(Clone, Copy, Debug, PartialEq, Eq, Structural)]
pub enum StepResult {
    Succeeded,
    NothingToApply,
    Failed,
}

/// The outcome of replaying one commit, from whether the command succeeded and
/// what it wrote to its error stream: a failure that mentions `empty` is a
/// replay with nothing to apply.
pub open spec fn replay_result_of(success: bool, stderr: Seq<char>) -> StepResult {
    if success {
        StepResult::Succeeded
    } else if contains_seq(stderr, "empty"@) {
        StepResult::NothingToApply
    } else {
        StepResult::Failed
    }
}

/// The outcome of replaying one commit.
pub fn classify_replay(success: bool, stderr: &str) -> (r: StepResult)
    ensures
        r == replay_result_of(success, stderr@),
{
    if success {
        StepResult::Succeeded
    } else {
        let text = chars_of(stderr);
        let word = chars_of("empty");
        if contains_text(&text, &word) {
            StepResult::NothingToApply
        } else {
            StepResult::Failed
        }
    }
}

/// Where a publication stands.
#[derive(Clone, Copy, Debug, PartialEq, Eq, Structural)]
pub enum Phase {
    /// The template's remote has not been fetched yet.
    Init,
    /// The template's remote is fetched; the branch is not made yet.
    RemoteReady,
    /// The branch exists; the next commit is being replayed.
    Replaying,
    /// The next commit had nothing to apply; its replay is being skipped.
    Skipping,
    /// Every commit is replayed or skipped; the branch is not pushed yet.
    Replayed,
    /// The branch is pushed.
    Pushed,
    /// The push failed; the local branch stands.
    PushFailed,
    /// The template's remote could not be fetched; nothing was made.
    FetchFailed,
    /// The branch could not be made.
    BranchCreateFailed,
    /// A replay failed; the branch holds the commits before it.
    ReplayAborted,
}

/// Phase, index of the next commit to replay, and for each commit before it
/// whether it was applied (`true`) or skipped (`false`), after one step with
/// result `ev` in a publication of `n` commits.
pub open spec fn step(state: (Phase, int, Seq<bool>), n: int, ev: StepResult) -> (Phase, int, Seq<bool>) {
    let (phase, next, record) = state;
    match phase {
        Phase::Init => if ev == StepResult::Succeeded {
            (Phase::RemoteReady, next, record)
        } else {
            (Phase::FetchFailed, next, record)
        },
        Phase::RemoteReady => if ev == StepResult::Succeeded {
            (if n == 0 {
                Phase::Replayed
            } else {
                Phase::Replaying
            }, next, record)
        } else {
            (Phase::BranchCreateFailed, next, record)
        },
        Phase::Replaying => match ev {
            StepResult::Succeeded => (if next + 1 < n {
                Phase::Replaying
            } else {
                Phase::Replayed
            }, next + 1, record.push(true)),
            StepResult::NothingToApply => (Phase::Skipping, next, record),
            StepResult::Failed => (Phase::ReplayAborted, next, record),
        },
        Phase::Skipping => if ev == StepResult::Succeeded {
            (if next + 1 < n {
                Phase::Replaying
            } else {
                Phase::Replayed
            }, next + 1, record.push(false))
        } else {
            (Phase::ReplayAborted, next, record)
        },
        Phase::Replayed => if ev == StepResult::Succeeded {
            (Phase::Pushed, next, record)
        } else {
            (Phase::PushFailed, next, record)
        },
        _ => state,
    }
}

/// The state after a run of steps.
pub open spec fn run(state: (Phase, int, Seq<bool>), n: int, evs: Seq<StepResult>) -> (Phase, int, Seq<bool>)
    decreases evs.len(),
{
    if evs.len() == 0 {
        state
    } else {
        run(step(state, n, evs[0]), n, evs.drop_first())
    }
}

/// The state a publication starts in.
pub open spec fn initial_state() -> (Phase, int, Seq<bool>) {
    (Phase::Init, 0, Seq::empty())
}

/// With no commits to replay, no state that a publication can reach has an
/// applied or a skipped commit: the branch stays at the baseline.
pub proof fn lemma_empty_replay_keeps_baseline(evs: Seq<StepResult>)
    ensures
        run(initial_state(), 0, evs).2 == Seq::<bool>::empty(),
        run(initial_state(), 0, evs).1 == 0,
{
    lemma_empty_run(initial_state(), evs);
}

proof fn lemma_empty_run(state: (Phase, int, Seq<bool>), evs: Seq<StepResult>)
    requires
        state.1 == 0,
        state.2 == Seq::<bool>::empty(),
        state.0 != Phase::Replaying && state.0 != Phase::Skipping,
    ensures
        run(state, 0, evs).2 == Seq::<bool>::empty(),
        run(state, 0, evs).1 == 0,
    decreases evs.len(),
{
    if evs.len() > 0 {
        lemma_empty_run(step(state, 0, evs[0]), evs.drop_first());
    }
}

/// The instant `secs` seconds after the Unix epoch, in UTC, written as
/// `YYYYMMDD-HHMMSS`.
pub uninterp spec fn utc_stamp(secs: int) -> Seq<char>;

/// `secs` falls in the years 0 to 9999, where the year takes four digits.
pub open spec fn four_digit_year(secs: int) -> bool {
    -62167219200 <= secs <= 253402300799
}

/// `s` reads `YYYYMMDD-HHMMSS`: fifteen characters, all digits but the `-` at
/// index 8.
pub open spec fn stamp_shape(s: Seq<char>) -> bool {
    &&& s.len() == 15
    &&& s[8] == '-'
    &&& forall|i: int| 0 <= i < 15 && i != 8 ==> '0' <= #[trigger] s[i] <= '9'
}

/// Relies on chrono's `DateTime::<Utc>::from_timestamp` and `format` with the
/// pattern `%Y%m%d-%H%M%S`: the result depends on `secs` alone; in the years
/// 0 to 9999 the instant exists and the year is written with four digits.
#[verifier::external_body]
fn utc_stamp_of(secs: i64) -> (r: Option<String>)
    ensures
        r matches Some(s) ==> s@ == utc_stamp(secs as int),
        r is None ==> !four_digit_year(secs as int),
        r matches Some(s) ==> (four_digit_year(secs as int) ==> stamp_shape(s@)),
{
    chrono::DateTime::<chrono::Utc>::from_timestamp(secs, 0).map(
        |d| d.format("%Y%m%d-%H%M%S").to_string(),
    )
}

/// The step a publication asks for next.
#[derive(Debug)]
pub enum Action {
    /// Register the template's remote at `url` and fetch it.
    FetchTemplate { url: String },
    /// Make branch `name` at commit `base` and switch to it.
    CreateBranch { name: String, base: String },
    /// Replay commit `hash` onto the branch.
    CherryPick { hash: String },
    /// Drop the replay in progress, which had nothing to apply.
    SkipCherryPick,
    /// Push `branch` to `url` as `remote_branch`.
    Push { url: String, branch: String, remote_branch: String },
    /// Nothing is left to do.
    Finish,
}

/// A branch that was made, and pushed.
#[derive(Debug)]
pub struct Published {
    pub branch: String,
    pub base: String,
    pub applied: Vec<String>,
    pub skipped: Vec<String>,
    pub remote_branch: String,
    pub pr_url: String,
}

/// Why a publication stopped.
#[derive(Debug)]
pub enum PublishError {
    /// The template's remote could not be fetched; nothing was made.
    FetchFailed,
    /// The branch could not be made at the baseline.
    BranchCreateFailed,
    /// A replay failed: `completed` made it onto the branch (applied or
    /// skipped), `remaining` did not, the failed one first.
    ReplayFailed { completed: Vec<String>, remaining: Vec<String> },
    /// The branch stands locally but was not pushed; `command` and `pr_url`
    /// let the user finish by hand.
    PushFailed { branch: String, applied: Vec<String>, skipped: Vec<String>, command: String, pr_url: String },
}

/// The identifiers of a sequence of commits.
pub open spec fn hashes(s: Seq<CommitView>) -> Seq<Seq<char>> {
    s.map_values(|c: CommitView| c.hash)
}

/// The views of a sequence of strings.
pub open spec fn string_views(s: Seq<String>) -> Seq<Seq<char>> {
    s.map_values(|x: String| x@)
}

/// The flags that pick the applied commits (`want` true) or the skipped ones.
pub open spec fn picks(record: Seq<bool>, want: bool) -> Seq<bool> {
    record.map_values(|b: bool| b == want)
}

/// The identifiers of `commits[lo..hi]`.
fn hash_range(commits: &Vec<Commit>, lo: usize, hi: usize) -> (r: Vec<String>)
    requires
        lo <= hi <= commits.len(),
    ensures
        string_views(r@) == hashes(commits@.map_values(|c: Commit| c@)).subrange(lo as int, hi as int),
{
    let ghost hs = hashes(commits@.map_values(|c: Commit| c@));
    let mut r: Vec<String> = Vec::new();
    let mut i: usize = lo;
    while i < hi
        invariant
            lo <= i <= hi <= commits.len(),
            hs == hashes(commits@.map_values(|c: Commit| c@)),
            string_views(r@) == hs.subrange(lo as int, i as int),
        decreases hi - i,
    {
        let ghost before = r@;
        r.push(commits[i].hash.clone());
        assert(hs[i as int] == commits@[i as int].hash@);
        assert(string_views(r@) =~= string_views(before).push(hs[i as int]));
        assert(hs.subrange(lo as int, i + 1) =~= hs.subrange(lo as int, i as int).push(hs[i as int]));
        i = i + 1;
    }
    r
}

/// The identifiers of the commits before `record.len()` whose entry is `want`.
fn picked_hashes(commits: &Vec<Commit>, record: &Vec<bool>, want: bool) -> (r: Vec<String>)
    requires
        record.len() <= commits.len(),
    ensures
        string_views(r@) == filter_selected(
            hashes(commits@.map_values(|c: Commit| c@)).take(record.len() as int),
            picks(record@, want),
        ),
{
    let ghost hs = hashes(commits@.map_values(|c: Commit| c@));
    let mut r: Vec<String> = Vec::new();
    for i in 0..record.len()
        invariant
            record.len() <= commits.len(),
            hs == hashes(commits@.map_values(|c: Commit| c@)),
            string_views(r@) == filter_selected(
                hs.take(record.len() as int).take(i as int),
                picks(record@, want).take(i as int),
            ),
    {
        proof {
            assert(hs.take(record.len() as int).take(i + 1).drop_last() =~= hs.take(
                record.len() as int,
            ).take(i as int));
            assert(picks(record@, want).take(i + 1).drop_last() =~= picks(record@, want).take(
                i as int,
            ));
        }
        let ghost before = r@;
        if record[i] == want {
            r.push(commits[i].hash.clone());
            assert(string_views(r@) =~= string_views(before).push(hs[i as int]));
        }
    }
    assert(hs.take(record.len() as int).take(record.len() as int) =~= hs.take(record.len() as int));
    assert(picks(record@, want).take(record.len() as int) =~= picks(record@, want));
    r
}

/// A publication of `commits` onto the template's baseline.
pub struct Publisher {
    commits: Vec<Commit>,
    template_url: String,
    template_host: String,
    template_repo: String,
    base: String,
    branch: String,
    remote_branch: String,
    phase: Phase,
    next: usize,
    record: Vec<bool>,
}

impl Publisher {
    pub closed spec fn commits_view(&self) -> Seq<CommitView> {
        self.commits@.map_values(|c: Commit| c@)
    }

    pub closed spec fn url_spec(&self) -> Seq<char> {
        self.template_url@
    }

    pub closed spec fn host_spec(&self) -> Seq<char> {
        self.template_host@
    }

    pub closed spec fn repo_spec(&self) -> Seq<char> {
        self.template_repo@
    }

    pub closed spec fn base_spec(&self) -> Seq<char> {
        self.base@
    }

    pub closed spec fn branch_spec(&self) -> Seq<char> {
        self.branch@
    }

    pub closed spec fn remote_branch_spec(&self) -> Seq<char> {
        self.remote_branch@
    }

    /// Phase, index of the next commit, and applied-or-skipped for each
    /// commit before it.
    pub closed spec fn state(&self) -> (Phase, int, Seq<bool>) {
        (self.phase, self.next as int, self.record@)
    }

    /// The number of commits to publish.
    pub open spec fn len_spec(&self) -> int {
        self.commits_view().len() as int
    }

    /// The record holds one entry per commit before the next one, and the
    /// phase agrees with how far the replay got.
    pub open spec fn wf(&self) -> bool {
        let (phase, next, record) = self.state();
        &&& record.len() == next
        &&& 0 <= next <= self.len_spec()
        &&& (phase == Phase::Replaying || phase == Phase::Skipping) ==> next < self.len_spec()
        &&& (phase == Phase::Replayed || phase == Phase::Pushed || phase == Phase::PushFailed)
            ==> next == self.len_spec()
        &&& (phase == Phase::Init || phase == Phase::RemoteReady || phase == Phase::FetchFailed
            || phase == Phase::BranchCreateFailed) ==> next == 0
    }

    /// Everything but the state is as in `other`.
    pub open spec fn same_plan(&self, other: &Publisher) -> bool {
        &&& self.commits_view() == other.commits_view()
        &&& self.url_spec() == other.url_spec()
        &&& self.host_spec() == other.host_spec()
        &&& self.repo_spec() == other.repo_spec()
        &&& self.base_spec() == other.base_spec()
        &&& self.branch_spec() == other.branch_spec()
        &&& self.remote_branch_spec() == other.remote_branch_spec()
    }

    /// A publication of `commits`, in their order, onto commit `base` of the
    /// template `template_repo` on `template_host`, reached at `template_url`,
    /// from `current_repo`, for a run that began at `stamp`.
    pub fn new(
        commits: Vec<Commit>,
        template_url: &str,
        template_host: &str,
        template_repo: &str,
        base: &str,
        current_repo: &str,
        stamp: &str,
    ) -> (r: Publisher)
        ensures
            r.wf(),
            r.state() == initial_state(),
            r.commits_view() == commits@.map_values(|c: Commit| c@),
            r.url_spec() == template_url@,
            r.host_spec() == template_host@,
            r.repo_spec() == template_repo@,
            r.base_spec() == base@,
            r.branch_spec() == branch_name_of(stamp@),
            r.remote_branch_spec() == remote_branch_of(current_repo@, stamp@),
    {
        let r = Publisher {
            commits,
            template_url: template_url.to_owned(),
            template_host: template_host.to_owned(),
            template_repo: template_repo.to_owned(),
            base: base.to_owned(),
            branch: branch_name(stamp),
            remote_branch: remote_branch_name(current_repo, stamp),
            phase: Phase::Init,
            next: 0,
            record: Vec::new(),
        };
        assert(r.record@ =~= Seq::<bool>::empty());
        r
    }

    /// A publication as `new` makes it, for a run that began `secs` seconds
    /// after the Unix epoch: the stamp is that instant in UTC as
    /// `YYYYMMDD-HHMMSS`. `None` where chrono cannot represent the instant.
    pub fn start(
        commits: Vec<Commit>,
        template_url: &str,
        template_host: &str,
        template_repo: &str,
        base: &str,
        current_repo: &str,
        secs: i64,
    ) -> (r: Option<Publisher>)
        ensures
            four_digit_year(secs as int) ==> r is Some,
            r matches Some(p) ==> {
                &&& p.wf()
                &&& p.state() == initial_state()
                &&& p.commits_view() == commits@.map_values(|c: Commit| c@)
                &&& p.url_spec() == template_url@
                &&& p.host_spec() == template_host@
                &&& p.repo_spec() == template_repo@
                &&& p.base_spec() == base@
                &&& p.branch_spec() == branch_name_of(utc_stamp(secs as int))
                &&& p.remote_branch_spec() == remote_branch_of(current_repo@, utc_stamp(secs as int))
                &&& four_digit_year(secs as int) ==> stamp_shape(utc_stamp(secs as int))
            },
    {
        match utc_stamp_of(secs) {
            Some(stamp) => Some(
                Publisher::new(
                    commits,
                    template_url,
                    template_host,
                    template_repo,
                    base,
                    current_repo,
                    stamp.as_str(),
                ),
            ),
            None => None,
        }
    }

    /// Where the publication stands.
    pub fn phase(&self) -> (r: Phase)
        ensures
            r == self.state().0,
    {
        self.phase
    }

    /// Takes the result of the step that `action` asked for.
    pub fn on_result(&mut self, ev: StepResult)
        requires
            old(self).wf(),
        ensures
            final(self).wf(),
            final(self).same_plan(old(self)),
            final(self).state() == step(old(self).state(), old(self).len_spec(), ev),
    {
        let n = self.commits.len();
        match self.phase {
            Phase::Init => {
                self.phase = if ev == StepResult::Succeeded {
                    Phase::RemoteReady
                } else {
                    Phase::FetchFailed
                };
            },
            Phase::RemoteReady => {
                self.phase = if ev != StepResult::Succeeded {
                    Phase::BranchCreateFailed
                } else if n == 0 {
                    Phase::Replayed
                } else {
                    Phase::Replaying
                };
            },
            Phase::Replaying => {
                match ev {
                    StepResult::Succeeded => {
                        self.record.push(true);
                        self.next = self.next + 1;
                        self.phase = if self.next < n {
                            Phase::Replaying
                        } else {
                            Phase::Replayed
                        };
                    },
                    StepResult::NothingToApply => {
                        self.phase = Phase::Skipping;
                    },
                    StepResult::Failed => {
                        self.phase = Phase::ReplayAborted;
                    },
                }
            },
            Phase::Skipping => {
                if ev == StepResult::Succeeded {
                    self.record.push(false);
                    self.next = self.next + 1;
                    self.phase = if self.next < n {
                        Phase::Replaying
                    } else {
                        Phase::Replayed
                    };
                } else {
                    self.phase = Phase::ReplayAborted;
                }
            },
            Phase::Replayed => {
                self.phase = if ev == StepResult::Succeeded {
                    Phase::Pushed
                } else {
                    Phase::PushFailed
                };
            },
            _ => {},
        }
    }

    /// `r` is the step that the publication asks for next.
    pub open spec fn action_fits(&self, r: Action) -> bool {
        match self.state().0 {
            Phase::Init => r matches Action::FetchTemplate { url } && url@ == self.url_spec(),
            Phase::RemoteReady => r matches Action::CreateBranch { name, base } && name@
                == self.branch_spec() && base@ == self.base_spec(),
            Phase::Replaying => r matches Action::CherryPick { hash } && hash@
                == self.commits_view()[self.state().1].hash,
            Phase::Skipping => r is SkipCherryPick,
            Phase::Replayed => r matches Action::Push { url, branch, remote_branch } && url@
                == self.url_spec() && branch@ == self.branch_spec() && remote_branch@
                == self.remote_branch_spec(),
            _ => r is Finish,
        }
    }

    /// The step to run next; `Finish` once the publication is over.
    pub fn action(&self) -> (r: Action)
        requires
            self.wf(),
        ensures
            self.action_fits(r),
    {
        match self.phase {
            Phase::Init => Action::FetchTemplate { url: self.template_url.clone() },
            Phase::RemoteReady => Action::CreateBranch {
                name: self.branch.clone(),
                base: self.base.clone(),
            },
            Phase::Replaying => Action::CherryPick { hash: self.commits[self.next].hash.clone() },
            Phase::Skipping => Action::SkipCherryPick,
            Phase::Replayed => Action::Push {
                url: self.template_url.clone(),
                branch: self.branch.clone(),
                remote_branch: self.remote_branch.clone(),
            },
            _ => Action::Finish,
        }
    }

    /// The identifiers of the commits replayed so far with entry `want`.
    pub open spec fn picked_spec(&self, want: bool) -> Seq<Seq<char>> {
        filter_selected(
            hashes(self.commits_view()).take(self.state().1),
            picks(self.state().2, want),
        )
    }

    /// `r` is how the publication ended, or `None` while it goes on.
    pub open spec fn outcome_fits(&self, r: Option<Result<Published, PublishError>>) -> bool {
        let (phase, next, record) = self.state();
        let pr = pr_url_of(self.host_spec(), self.repo_spec(), self.remote_branch_spec());
        match phase {
            Phase::Pushed => r matches Some(Ok(p)) && p.branch@ == self.branch_spec() && p.base@
                == self.base_spec() && string_views(p.applied@) == self.picked_spec(true)
                && string_views(p.skipped@) == self.picked_spec(false) && p.remote_branch@
                == self.remote_branch_spec() && p.pr_url@ == pr,
            Phase::PushFailed => r matches Some(Err(PublishError::PushFailed { branch, applied, skipped, command, pr_url }))
                && branch@ == self.branch_spec() && string_views(applied@) == self.picked_spec(true)
                && string_views(skipped@) == self.picked_spec(false) && command@ == push_command_of(
                self.url_spec(),
                self.branch_spec(),
                self.remote_branch_spec(),
            ) && pr_url@ == pr,
            Phase::FetchFailed => r matches Some(Err(PublishError::FetchFailed)),
            Phase::BranchCreateFailed => r matches Some(Err(PublishError::BranchCreateFailed)),
            Phase::ReplayAborted => r matches Some(Err(PublishError::ReplayFailed { completed, remaining }))
                && string_views(completed@) == hashes(self.commits_view()).take(next)
                && string_views(remaining@) == hashes(self.commits_view()).skip(next),
            _ => r is None,
        }
    }

    /// How the publication ended: the branch, or why it stopped; `None` while
    /// steps remain.
    pub fn outcome(&self) -> (r: Option<Result<Published, PublishError>>)
        requires
            self.wf(),
        ensures
            self.outcome_fits(r),
    {
        let ghost hs = hashes(self.commits_view());
        match self.phase {
            Phase::Pushed | Phase::PushFailed => {
                let applied = picked_hashes(&self.commits, &self.record, true);
                let skipped = picked_hashes(&self.commits, &self.record, false);
                let pr_url = pull_request_url(
                    self.template_host.as_str(),
                    self.template_repo.as_str(),
                    self.remote_branch.as_str(),
                );
                if self.phase == Phase::Pushed {
                    Some(
                        Ok(
                            Published {
                                branch: self.branch.clone(),
                                base: self.base.clone(),
                                applied,
                                skipped,
                                remote_branch: self.remote_branch.clone(),
                                pr_url,
                            },
                        ),
                    )
                } else {
                    let command = push_command(
                        self.template_url.as_str(),
                        self.branch.as_str(),
                        self.remote_branch.as_str(),
                    );
                    Some(
                        Err(
                            PublishError::PushFailed {
                                branch: self.branch.clone(),
                                applied,
                                skipped,
                                command,
                                pr_url,
                            },
                        ),
                    )
                }
            },
            Phase::FetchFailed => Some(Err(PublishError::FetchFailed)),
            Phase::BranchCreateFailed => Some(Err(PublishError::BranchCreateFailed)),
            Phase::ReplayAborted => {
                let completed = hash_range(&self.commits, 0, self.next);
                let remaining = hash_range(&self.commits, self.next, self.commits.len());
                assert(hs.subrange(0, self.next as int) =~= hs.take(self.next as int));
                assert(hs.subrange(self.next as int, self.commits.len() as int) =~= hs.skip(
                    self.next as int,
                ));
                Some(Err(PublishError::ReplayFailed { completed, remaining }))
            },
            _ => None,
        }
    }
}

} // verus!
