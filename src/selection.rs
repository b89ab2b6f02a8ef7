//! The interactive selection: a cursor over the candidate commits and one
//! selection flag per commit.
use vstd::prelude::*;

use crate::commit::{commit_views, Commit, CommitView};
use crate::keys::{command_for, command_of, Command, KeyPress};

verus! {

/// What the cursor does at either end of the list.
#[derive(Clone, Copy, Debug, PartialEq, Eq, Structural)]
pub enum CursorPolicy {
    /// Stays on the first or last commit.
    Clamp,
    /// Goes round to the other end.
    Wrap,
}

/// The cursor after moving down from `c` in a list of `len` commits.
pub open spec fn next_index(c: int, len: int, policy: CursorPolicy) -> int {
    if c >= len - 1 {
        if policy == CursorPolicy::Wrap {
            0
        } else {
            len - 1
        }
    } else {
        c + 1
    }
}

/// The cursor after moving up from `c` in a list of `len` commits.
pub open spec fn prev_index(c: int, len: int, policy: CursorPolicy) -> int {
    if c == 0 {
        if policy == CursorPolicy::Wrap {
            len - 1
        } else {
            0
        }
    } else {
        c - 1
    }
}

/// The items whose flag is set, in their order.
pub open spec fn filter_selected<T>(items: Seq<T>, flags: Seq<bool>) -> Seq<T>
    decreases items.len(),
{
    if items.len() == 0 {
        Seq::empty()
    } else {
        let rest = filter_selected(items.drop_last(), flags.drop_last());
        if flags[items.len() - 1] {
            rest.push(items.last())
        } else {
            rest
        }
    }
}

/// The flags after flipping the one under `cursor`, if there is one.
pub open spec fn toggled(flags: Seq<bool>, cursor: Option<usize>) -> Seq<bool> {
    match cursor {
        Some(c) => if c < flags.len() {
            flags.update(c as int, !flags[c as int])
        } else {
            flags
        },
        None => flags,
    }
}

/// `a` is `b` with some items left out and the rest in their order: `idx`
/// gives, for each item of `a`, its strictly increasing position in `b`.
pub open spec fn subsequence_by<T>(a: Seq<T>, b: Seq<T>, idx: Seq<int>) -> bool {
    &&& idx.len() == a.len()
    &&& forall|k: int| 0 <= k < a.len() ==> 0 <= #[trigger] idx[k] < b.len() && a[k] == b[idx[k]]
    &&& forall|k: int, l: int| 0 <= k < l < a.len() ==> idx[k] < idx[l]
}

/// `a` is an order-preserving subsequence of `b`.
pub open spec fn is_subsequence<T>(a: Seq<T>, b: Seq<T>) -> bool {
    exists|idx: Seq<int>| subsequence_by(a, b, idx)
}

/// The selection state: the candidate commits in order, one flag per commit,
/// and a cursor that points at a commit whenever there is one.
pub struct App {
    commits: Vec<Commit>,
    selected: Vec<bool>,
    cursor: Option<usize>,
    policy: CursorPolicy,
    should_quit: bool,
    show_help: bool,
}

impl App {
    /// The flags match the commits one for one, and the cursor is on a commit
    /// exactly when there is one.
    pub open spec fn wf(&self) -> bool {
        &&& self.flags().len() == self.commits_view().len()
        &&& self.commits_view().len() <= usize::MAX
        &&& (self.cursor_spec() is Some <==> self.commits_view().len() > 0)
        &&& (self.cursor_spec() matches Some(c) ==> c < self.commits_view().len())
    }

    pub closed spec fn commits_view(&self) -> Seq<CommitView> {
        commit_views(self.commits@)
    }

    pub closed spec fn flags(&self) -> Seq<bool> {
        self.selected@
    }

    pub closed spec fn cursor_spec(&self) -> Option<usize> {
        self.cursor
    }

    pub closed spec fn policy_spec(&self) -> CursorPolicy {
        self.policy
    }

    pub closed spec fn quit_spec(&self) -> bool {
        self.should_quit
    }

    pub closed spec fn help_spec(&self) -> bool {
        self.show_help
    }

    /// The selected commits, in the order of the list.
    pub open spec fn selected_view(&self) -> Seq<CommitView> {
        filter_selected(self.commits_view(), self.flags())
    }

    /// A selection over `commits` that wraps round at the ends, with nothing
    /// selected and the cursor on the first commit.
    pub fn new(commits: Vec<Commit>) -> (r: App)
        ensures
            r.wf(),
            r.commits_view() == commit_views(commits@),
            r.flags() == Seq::new(commits@.len(), |i: int| false),
            r.cursor_spec() == (if commits@.len() > 0 { Some(0usize) } else { None }),
            r.policy_spec() == CursorPolicy::Wrap,
            !r.quit_spec(),
            !r.help_spec(),
    {
        App::with_policy(commits, CursorPolicy::Wrap)
    }

    /// A selection over `commits` whose cursor follows `policy` at the ends,
    /// with nothing selected and the cursor on the first commit.
    pub fn with_policy(commits: Vec<Commit>, policy: CursorPolicy) -> (r: App)
        ensures
            r.wf(),
            r.commits_view() == commit_views(commits@),
            r.flags() == Seq::new(commits@.len(), |i: int| false),
            r.cursor_spec() == (if commits@.len() > 0 { Some(0usize) } else { None }),
            r.policy_spec() == policy,
            !r.quit_spec(),
            !r.help_spec(),
    {
        let mut selected: Vec<bool> = Vec::new();
        for i in 0..commits.len()
            invariant
                selected@ == Seq::new(i as nat, |k: int| false),
        {
            selected.push(false);
            assert(selected@ =~= Seq::new((i + 1) as nat, |k: int| false));
        }
        let cursor = if commits.len() > 0 {
            Some(0usize)
        } else {
            None
        };
        App { commits, selected, cursor, policy, should_quit: false, show_help: false }
    }

    /// Moves the cursor down one commit; at the last one it wraps or stays
    /// as the policy says. Nothing changes when the list is empty.
    pub fn next(&mut self)
        requires
            old(self).wf(),
        ensures
            final(self).wf(),
            final(self).commits_view() == old(self).commits_view(),
            final(self).flags() == old(self).flags(),
            final(self).policy_spec() == old(self).policy_spec(),
            final(self).quit_spec() == old(self).quit_spec(),
            final(self).help_spec() == old(self).help_spec(),
            old(self).cursor_spec() matches Some(c) ==> final(self).cursor_spec() == Some(
                next_index(c as int, old(self).commits_view().len() as int, old(self).policy_spec()) as usize,
            ),
            old(self).cursor_spec() is None ==> final(self).cursor_spec() is None,
    {
        if self.commits.len() == 0 {
            return;
        }
        let c = self.cursor.unwrap();
        let i = if c >= self.commits.len() - 1 {
            match self.policy {
                CursorPolicy::Wrap => 0,
                CursorPolicy::Clamp => self.commits.len() - 1,
            }
        } else {
            c + 1
        };
        self.cursor = Some(i);
    }

    /// Moves the cursor up one commit; at the first one it wraps or stays
    /// as the policy says. Nothing changes when the list is empty.
    pub fn previous(&mut self)
        requires
            old(self).wf(),
        ensures
            final(self).wf(),
            final(self).commits_view() == old(self).commits_view(),
            final(self).flags() == old(self).flags(),
            final(self).policy_spec() == old(self).policy_spec(),
            final(self).quit_spec() == old(self).quit_spec(),
            final(self).help_spec() == old(self).help_spec(),
            old(self).cursor_spec() matches Some(c) ==> final(self).cursor_spec() == Some(
                prev_index(c as int, old(self).commits_view().len() as int, old(self).policy_spec()) as usize,
            ),
            old(self).cursor_spec() is None ==> final(self).cursor_spec() is None,
    {
        if self.commits.len() == 0 {
            return;
        }
        let c = self.cursor.unwrap();
        let i = if c == 0 {
            match self.policy {
                CursorPolicy::Wrap => self.commits.len() - 1,
                CursorPolicy::Clamp => 0,
            }
        } else {
            c - 1
        };
        self.cursor = Some(i);
    }

    /// Flips the flag of the commit under the cursor; nothing changes when the
    /// list is empty.
    pub fn toggle_current(&mut self)
        requires
            old(self).wf(),
        ensures
            final(self).wf(),
            final(self).commits_view() == old(self).commits_view(),
            final(self).cursor_spec() == old(self).cursor_spec(),
            final(self).policy_spec() == old(self).policy_spec(),
            final(self).quit_spec() == old(self).quit_spec(),
            final(self).help_spec() == old(self).help_spec(),
            final(self).flags() == toggled(old(self).flags(), old(self).cursor_spec()),
    {
        if let Some(i) = self.cursor {
            if i < self.selected.len() {
                let v = self.selected[i];
                self.selected[i] = !v;
            }
        }
    }

    /// Sets every flag to `value`.
    fn set_all(&mut self, value: bool)
        requires
            old(self).wf(),
        ensures
            final(self).wf(),
            final(self).commits_view() == old(self).commits_view(),
            final(self).cursor_spec() == old(self).cursor_spec(),
            final(self).policy_spec() == old(self).policy_spec(),
            final(self).quit_spec() == old(self).quit_spec(),
            final(self).help_spec() == old(self).help_spec(),
            final(self).flags() == Seq::new(old(self).flags().len(), |i: int| value),
    {
        let n = self.selected.len();
        for i in 0..n
            invariant
                self.wf(),
                n == self.selected@.len(),
                self.commits_view() == old(self).commits_view(),
                self.cursor_spec() == old(self).cursor_spec(),
                self.policy_spec() == old(self).policy_spec(),
                self.quit_spec() == old(self).quit_spec(),
                self.help_spec() == old(self).help_spec(),
                forall|k: int| 0 <= k < i ==> self.selected@[k] == value,
        {
            self.selected[i] = value;
        }
        assert(self.flags() =~= Seq::new(old(self).flags().len(), |i: int| value));
    }

    /// Selects every commit; the cursor stays where it is.
    pub fn select_all(&mut self)
        requires
            old(self).wf(),
        ensures
            final(self).wf(),
            final(self).commits_view() == old(self).commits_view(),
            final(self).cursor_spec() == old(self).cursor_spec(),
            final(self).policy_spec() == old(self).policy_spec(),
            final(self).quit_spec() == old(self).quit_spec(),
            final(self).help_spec() == old(self).help_spec(),
            final(self).flags() == Seq::new(old(self).flags().len(), |i: int| true),
    {
        self.set_all(true);
    }

    /// Clears every flag; the cursor stays where it is.
    pub fn select_none(&mut self)
        requires
            old(self).wf(),
        ensures
            final(self).wf(),
            final(self).commits_view() == old(self).commits_view(),
            final(self).cursor_spec() == old(self).cursor_spec(),
            final(self).policy_spec() == old(self).policy_spec(),
            final(self).quit_spec() == old(self).quit_spec(),
            final(self).help_spec() == old(self).help_spec(),
            final(self).flags() == Seq::new(old(self).flags().len(), |i: int| false),
    {
        self.set_all(false);
    }

    /// Flips every flag; the cursor stays where it is.
    pub fn invert_selection(&mut self)
        requires
            old(self).wf(),
        ensures
            final(self).wf(),
            final(self).commits_view() == old(self).commits_view(),
            final(self).cursor_spec() == old(self).cursor_spec(),
            final(self).policy_spec() == old(self).policy_spec(),
            final(self).quit_spec() == old(self).quit_spec(),
            final(self).help_spec() == old(self).help_spec(),
            final(self).flags() == old(self).flags().map_values(|b: bool| !b),
    {
        let n = self.selected.len();
        for i in 0..n
            invariant
                self.wf(),
                n == self.selected@.len(),
                self.commits_view() == old(self).commits_view(),
                self.cursor_spec() == old(self).cursor_spec(),
                self.policy_spec() == old(self).policy_spec(),
                self.quit_spec() == old(self).quit_spec(),
                self.help_spec() == old(self).help_spec(),
                forall|k: int| 0 <= k < i ==> self.selected@[k] == !old(self).selected@[k],
                forall|k: int| i <= k < n ==> self.selected@[k] == old(self).selected@[k],
        {
            let v = self.selected[i];
            self.selected[i] = !v;
        }
        assert(self.flags() =~= old(self).flags().map_values(|b: bool| !b));
    }

    /// The selected commits, in the order of the list (not the order in which
    /// they were toggled).
    pub fn get_selected(&self) -> (r: Vec<Commit>)
        requires
            self.wf(),
        ensures
            commit_views(r@) == self.selected_view(),
    {
        let mut r: Vec<Commit> = Vec::new();
        for i in 0..self.commits.len()
            invariant
                self.wf(),
                commit_views(r@) == filter_selected(
                    self.commits_view().take(i as int),
                    self.flags().take(i as int),
                ),
        {
            proof {
                let items = self.commits_view().take(i + 1);
                let flags = self.flags().take(i + 1);
                assert(items.drop_last() =~= self.commits_view().take(i as int));
                assert(flags.drop_last() =~= self.flags().take(i as int));
            }
            let ghost before = r@;
            if self.selected[i] {
                r.push(self.commits[i].duplicate());
                assert(commit_views(r@) =~= commit_views(before).push(self.commits_view()[i as int]));
            }
        }
        assert(self.commits_view().take(self.commits.len() as int) =~= self.commits_view());
        assert(self.flags().take(self.commits.len() as int) =~= self.flags());
        r
    }

    /// The number of selected commits.
    pub fn selected_count(&self) -> (r: usize)
        requires
            self.wf(),
        ensures
            r == self.selected_view().len(),
    {
        let mut n: usize = 0;
        for i in 0..self.selected.len()
            invariant
                self.wf(),
                n == filter_selected(self.commits_view().take(i as int), self.flags().take(i as int)).len(),
                n <= i,
        {
            proof {
                let items = self.commits_view().take(i + 1);
                let flags = self.flags().take(i + 1);
                assert(items.drop_last() =~= self.commits_view().take(i as int));
                assert(flags.drop_last() =~= self.flags().take(i as int));
            }
            if self.selected[i] {
                n = n + 1;
            }
        }
        assert(self.commits_view().take(self.commits.len() as int) =~= self.commits_view());
        assert(self.flags().take(self.commits.len() as int) =~= self.flags());
        n
    }

    /// The commit under the cursor, if the list is not empty.
    pub fn current_commit(&self) -> (r: Option<&Commit>)
        requires
            self.wf(),
        ensures
            self.cursor_spec() is None ==> r is None,
            self.cursor_spec() matches Some(c) ==> (r matches Some(x) && x@ == self.commits_view()[c as int]),
    {
        match self.cursor {
            Some(i) => Some(&self.commits[i]),
            None => None,
        }
    }

    /// The candidate commits, in order.
    pub fn commits(&self) -> (r: &Vec<Commit>)
        ensures
            commit_views(r@) == self.commits_view(),
    {
        &self.commits
    }

    /// Whether the commit at `i` is selected.
    pub fn is_selected(&self, i: usize) -> (r: bool)
        requires
            self.wf(),
            i < self.commits_view().len(),
        ensures
            r == self.flags()[i as int],
    {
        self.selected[i]
    }

    /// The position of the cursor, if the list is not empty.
    pub fn cursor(&self) -> (r: Option<usize>)
        ensures
            r == self.cursor_spec(),
    {
        self.cursor
    }

    /// Whether the user asked to leave without publishing.
    pub fn should_quit(&self) -> (r: bool)
        ensures
            r == self.quit_spec(),
    {
        self.should_quit
    }

    /// Whether the help panel is shown.
    pub fn show_help(&self) -> (r: bool)
        ensures
            r == self.help_spec(),
    {
        self.show_help
    }
}

/// What a key press does to the selection: `a` before, `b` after, and
/// whether the selection is over.
pub open spec fn key_effect(a: App, b: App, key: KeyPress, done: bool) -> bool {
    match command_of(key) {
        Command::Quit => if a.help_spec() {
            !done && !b.help_spec() && b.quit_spec() == a.quit_spec()
                && b.flags() == a.flags() && b.cursor_spec() == a.cursor_spec()
        } else {
            done && b.quit_spec() && b.help_spec() == a.help_spec()
                && b.flags() == a.flags() && b.cursor_spec() == a.cursor_spec()
        },
        Command::ForceQuit => done && b.quit_spec() && b.help_spec() == a.help_spec()
            && b.flags() == a.flags() && b.cursor_spec() == a.cursor_spec(),
        Command::Down => !done && b.flags() == a.flags() && b.quit_spec() == a.quit_spec()
            && b.help_spec() == a.help_spec() && (a.cursor_spec() matches Some(c) ==> b.cursor_spec()
            == Some(next_index(c as int, a.commits_view().len() as int, a.policy_spec()) as usize))
            && (a.cursor_spec() is None ==> b.cursor_spec() is None),
        Command::Up => !done && b.flags() == a.flags() && b.quit_spec() == a.quit_spec()
            && b.help_spec() == a.help_spec() && (a.cursor_spec() matches Some(c) ==> b.cursor_spec()
            == Some(prev_index(c as int, a.commits_view().len() as int, a.policy_spec()) as usize))
            && (a.cursor_spec() is None ==> b.cursor_spec() is None),
        Command::Toggle => !done && b.flags() == toggled(a.flags(), a.cursor_spec())
            && b.cursor_spec() == a.cursor_spec() && b.quit_spec() == a.quit_spec()
            && b.help_spec() == a.help_spec(),
        Command::SelectAll => !done && b.flags() == Seq::new(a.flags().len(), |i: int| true)
            && b.cursor_spec() == a.cursor_spec() && b.quit_spec() == a.quit_spec()
            && b.help_spec() == a.help_spec(),
        Command::SelectNone => !done && b.flags() == Seq::new(a.flags().len(), |i: int| false)
            && b.cursor_spec() == a.cursor_spec() && b.quit_spec() == a.quit_spec()
            && b.help_spec() == a.help_spec(),
        Command::Invert => !done && b.flags() == a.flags().map_values(|x: bool| !x)
            && b.cursor_spec() == a.cursor_spec() && b.quit_spec() == a.quit_spec()
            && b.help_spec() == a.help_spec(),
        Command::ToggleHelp => !done && b.help_spec() == !a.help_spec() && b.flags() == a.flags()
            && b.cursor_spec() == a.cursor_spec() && b.quit_spec() == a.quit_spec(),
        Command::Confirm => done == !a.help_spec() && b.help_spec() == a.help_spec()
            && b.flags() == a.flags() && b.cursor_spec() == a.cursor_spec()
            && b.quit_spec() == a.quit_spec(),
        Command::Ignore => !done && b.help_spec() == a.help_spec() && b.flags() == a.flags()
            && b.cursor_spec() == a.cursor_spec() && b.quit_spec() == a.quit_spec(),
    }
}

/// Applies a key press to the selection. Returns whether the selection is
/// over: the user confirmed it, or asked to leave (then `should_quit` is set).
pub fn handle_key_event(app: &mut App, key: KeyPress) -> (done: bool)
    requires
        old(app).wf(),
    ensures
        final(app).wf(),
        final(app).commits_view() == old(app).commits_view(),
        final(app).policy_spec() == old(app).policy_spec(),
        key_effect(*old(app), *final(app), key, done),
{
    match command_for(key) {
        Command::Quit => {
            if app.show_help {
                app.show_help = false;
                false
            } else {
                app.should_quit = true;
                true
            }
        },
        Command::ForceQuit => {
            app.should_quit = true;
            true
        },
        Command::Down => {
            app.next();
            false
        },
        Command::Up => {
            app.previous();
            false
        },
        Command::Toggle => {
            app.toggle_current();
            false
        },
        Command::SelectAll => {
            app.select_all();
            false
        },
        Command::SelectNone => {
            app.select_none();
            false
        },
        Command::Invert => {
            app.invert_selection();
            false
        },
        Command::ToggleHelp => {
            app.show_help = !app.show_help;
            false
        },
        Command::Confirm => !app.show_help,
        Command::Ignore => false,
    }
}

/// The cursor after a sequence of moves (`true` down, `false` up) from `c`
/// in a list of `len` commits.
pub open spec fn cursor_after(c: int, len: int, policy: CursorPolicy, moves: Seq<bool>) -> int
    decreases moves.len(),
{
    if moves.len() == 0 {
        c
    } else {
        let c1 = if moves[0] {
            next_index(c, len, policy)
        } else {
            prev_index(c, len, policy)
        };
        cursor_after(c1, len, policy, moves.drop_first())
    }
}

/// In a non-empty list the cursor stays on a commit whatever moves are made.
pub proof fn lemma_cursor_stays_in_bounds(c: int, len: int, policy: CursorPolicy, moves: Seq<bool>)
    requires
        0 <= c < len,
    ensures
        0 <= cursor_after(c, len, policy, moves) < len,
    decreases moves.len(),
{
    if moves.len() > 0 {
        let c1 = if moves[0] {
            next_index(c, len, policy)
        } else {
            prev_index(c, len, policy)
        };
        lemma_cursor_stays_in_bounds(c1, len, policy, moves.drop_first());
    }
}

/// When the cursor wraps, moving up from the first commit lands on the last,
/// and moving down from the last lands on the first.
pub proof fn lemma_wrap_at_ends(len: int)
    requires
        len > 0,
    ensures
        prev_index(0, len, CursorPolicy::Wrap) == len - 1,
        next_index(len - 1, len, CursorPolicy::Wrap) == 0,
{
}

/// Toggling twice with the cursor in the same place leaves the flags as they
/// were.
pub proof fn lemma_toggle_twice(flags: Seq<bool>, cursor: Option<usize>)
    ensures
        toggled(toggled(flags, cursor), cursor) == flags,
{
    if let Some(c) = cursor {
        if c < flags.len() {
            assert(toggled(toggled(flags, cursor), cursor) =~= flags);
        }
    }
}

/// The positions `0..n`.
pub open spec fn positions(n: nat) -> Seq<int> {
    Seq::new(n, |i: int| i)
}

proof fn lemma_selected_by_positions<T>(items: Seq<T>, flags: Seq<bool>)
    requires
        flags.len() == items.len(),
    ensures
        subsequence_by(
            filter_selected(items, flags),
            items,
            filter_selected(positions(items.len()), flags),
        ),
    decreases items.len(),
{
    if items.len() > 0 {
        let n = items.len();
        let a0 = filter_selected(items.drop_last(), flags.drop_last());
        let i0 = filter_selected(positions((n - 1) as nat), flags.drop_last());
        lemma_selected_by_positions(items.drop_last(), flags.drop_last());
        assert(positions(n).drop_last() =~= positions((n - 1) as nat));
        let a = filter_selected(items, flags);
        let idx = filter_selected(positions(n), flags);
        if flags[n - 1] {
            assert(a == a0.push(items.last()));
            assert(idx == i0.push(n - 1));
            assert forall|k: int| 0 <= k < a.len() implies 0 <= #[trigger] idx[k] < items.len()
                && a[k] == items[idx[k]] by {
                if k < a0.len() {
                    assert(a0[k] == items.drop_last()[i0[k]]);
                }
            }
            assert forall|k: int, l: int| 0 <= k < l < a.len() implies idx[k] < idx[l] by {
                if l < a0.len() {
                } else {
                    assert(0 <= i0[k] < n - 1);
                }
            }
        } else {
            assert forall|k: int| 0 <= k < a.len() implies 0 <= #[trigger] idx[k] < items.len()
                && a[k] == items[idx[k]] by {
                assert(a0[k] == items.drop_last()[i0[k]]);
            }
        }
    }
}

/// The selected commits form an order-preserving subsequence of the list,
/// whatever the flags.
pub proof fn lemma_selected_is_subsequence<T>(items: Seq<T>, flags: Seq<bool>)
    requires
        flags.len() == items.len(),
    ensures
        is_subsequence(filter_selected(items, flags), items),
{
    lemma_selected_by_positions(items, flags);
    let idx = filter_selected(positions(items.len()), flags);
    assert(subsequence_by(filter_selected(items, flags), items, idx));
}

/// What `get_selected` returns is an order-preserving subsequence of the
/// candidate commits, whatever was toggled.
pub proof fn lemma_app_selection_is_subsequence(app: App)
    requires
        app.wf(),
    ensures
        is_subsequence(app.selected_view(), app.commits_view()),
{
    lemma_selected_is_subsequence(app.commits_view(), app.flags());
}

/// The selected commits depend on the list and the flags alone: two
/// selections over the same commits whose flags ended up equal, by whatever
/// moves and toggles, select the same commits in the same order.
pub proof fn lemma_selection_depends_on_flags(a1: App, a2: App)
    requires
        a1.commits_view() == a2.commits_view(),
        a1.flags() == a2.flags(),
    ensures
        a1.selected_view() == a2.selected_view(),
{
}

} // verus!
