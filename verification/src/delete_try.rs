//! One try of a delete, from the top: the tree is counted, and then it is
//! deleted against that count.
//!
//! Every try counts for itself. A try that comes after another one failed
//! half-way finds a smaller tree, counts that, and so ends at a hundred
//! percent like any other. The try asks for listings and removals only, so
//! it is the same over every protocol that can list and remove.

use crate::count::{
    children_script, count_listed, count_next, count_remote_items, count_script, count_start,
    dir_items, dirs_reversed, files_in, lemma_children_split, CountStep, CountStepView, CountView,
    CountWalk,
};
use crate::delete::{
    delete_remote_recursive, delete_run, delete_script, delete_start, delete_step,
    lemma_delete_walk, opt_progress, unexpected_text, DeleteAction, DeleteActionView, DeleteEvent,
    DeleteEventView, DeleteProgressView, DeleteStep, DeleteView, DeleteWalk,
};
use crate::models::FileItemView;
use crate::path::{last_segment, last_segment_spec};
use crate::text::{chars_of, string_of};
use crate::tree::{count_items, items_of, lemma_count_positive, TreeNode};
use vstd::prelude::*;

verus! {

/// What a try is busy with.
#[derive(Debug)]
pub enum TryPhase {
    /// The tree is being counted.
    Counting(CountWalk),
    /// The tree is being deleted.
    Deleting(DeleteWalk),
    /// The try has ended on a reply that did not fit.
    Ended,
}

/// A `TryPhase` by the views of its walks.
pub enum TryPhaseView {
    Counting(CountView),
    Deleting(DeleteView),
    Ended,
}

impl View for TryPhase {
    type V = TryPhaseView;

    open spec fn view(&self) -> TryPhaseView {
        match self {
            TryPhase::Counting(walk) => TryPhaseView::Counting(walk@),
            TryPhase::Deleting(walk) => TryPhaseView::Deleting(walk@),
            TryPhase::Ended => TryPhaseView::Ended,
        }
    }
}

/// The state of a try: the path that is to go, and what the try is busy
/// with.
pub struct DeleteTryView {
    pub path: Seq<char>,
    pub phase: TryPhaseView,
}

/// The try in which the deletion of `path` begins: nothing is counted yet.
pub open spec fn delete_try_start(path: Seq<char>) -> DeleteTryView {
    DeleteTryView { path, phase: TryPhaseView::Counting(count_start()) }
}

/// The try and what it asks for once the count has taken a listing: the
/// next listing while the count goes on, and, when the count is done, the
/// listing of the path itself, with which the deletion begins. The
/// deletion has the count as its total and shows the last segment of the
/// path as the name of what goes.
pub open spec fn counted(s: DeleteTryView, after: (CountView, CountStepView)) -> (
    DeleteTryView,
    DeleteActionView,
) {
    match after.1 {
        CountStepView::List(dir) => (
            DeleteTryView { phase: TryPhaseView::Counting(after.0), ..s },
            DeleteActionView::List(dir),
        ),
        CountStepView::Done(total) => (
            DeleteTryView {
                phase: TryPhaseView::Deleting(
                    delete_start(s.path, last_segment_spec(s.path), total),
                ),
                ..s
            },
            DeleteActionView::List(s.path),
        ),
    }
}

/// The try, the next thing to do and the progress event to send, after
/// `event`.
///
/// While the tree is counted, a listing goes to the count and no event is
/// sent; a removal is a reply that does not fit and ends the try. While
/// the tree is deleted, the event goes to the deletion, which says what
/// follows.
pub open spec fn delete_try_step(s: DeleteTryView, event: DeleteEventView) -> (
    DeleteTryView,
    DeleteActionView,
    Option<DeleteProgressView>,
) {
    match s.phase {
        TryPhaseView::Counting(count) => match event {
            DeleteEventView::Listed(reply) => (
                counted(s, count_listed(count, reply)).0,
                counted(s, count_listed(count, reply)).1,
                None,
            ),
            DeleteEventView::Removed(_) => (
                DeleteTryView { phase: TryPhaseView::Ended, ..s },
                DeleteActionView::Failed(unexpected_text()),
                None,
            ),
        },
        TryPhaseView::Deleting(walk) => (
            DeleteTryView { phase: TryPhaseView::Deleting(delete_step(walk, event).0), ..s },
            delete_step(walk, event).1,
            delete_step(walk, event).2,
        ),
        TryPhaseView::Ended => (s, DeleteActionView::Done, None),
    }
}

/// The try, its last step, and the progress events sent, after `events`
/// have been told in order, from the try `s` whose last step was `action`.
pub open spec fn delete_try_run(
    s: DeleteTryView,
    action: DeleteActionView,
    events: Seq<DeleteEventView>,
) -> (DeleteTryView, DeleteActionView, Seq<DeleteProgressView>)
    decreases events.len(),
{
    if events.len() == 0 {
        (s, action, Seq::empty())
    } else {
        let step = delete_try_step(s, events[0]);
        let rest = delete_try_run(step.0, step.1, events.drop_first());
        (
            rest.0,
            rest.1,
            match step.2 {
                Some(p) => seq![p] + rest.2,
                None => rest.2,
            },
        )
    }
}

/// Some listings as the events that tell of them.
pub open spec fn listed_events(replies: Seq<Option<Seq<FileItemView>>>) -> Seq<DeleteEventView> {
    replies.map_values(|reply: Option<Seq<FileItemView>>| DeleteEventView::Listed(reply))
}

/// What a server that holds the tree `n` tells during one try to delete
/// it, when every removal succeeds: what it tells while `n` is counted,
/// and then what it tells while `n` is deleted.
pub open spec fn delete_try_script(n: TreeNode) -> Seq<DeleteEventView> {
    listed_events(count_script(n)) + delete_script(n)
}

/// Telling two runs of events is telling the first and then the second.
proof fn lemma_try_run_concat(
    s: DeleteTryView,
    action: DeleteActionView,
    a: Seq<DeleteEventView>,
    b: Seq<DeleteEventView>,
)
    ensures
        ({
            let first = delete_try_run(s, action, a);
            let second = delete_try_run(first.0, first.1, b);
            delete_try_run(s, action, a + b) == (second.0, second.1, first.2 + second.2)
        }),
    decreases a.len(),
{
    let first = delete_try_run(s, action, a);
    let second = delete_try_run(first.0, first.1, b);
    if a.len() == 0 {
        assert(a + b =~= b);
        assert(first.2 + second.2 =~= second.2);
    } else {
        let step = delete_try_step(s, a[0]);
        assert((a + b)[0] == a[0]);
        assert((a + b).drop_first() =~= a.drop_first() + b);
        lemma_try_run_concat(step.0, step.1, a.drop_first(), b);
        let rest = delete_try_run(step.0, step.1, a.drop_first());
        match step.2 {
            Some(p) => {
                assert(seq![p] + (rest.2 + second.2) =~= (seq![p] + rest.2) + second.2);
            },
            None => {},
        }
    }
}

/// Telling a counting try of one listing is handing the listing to the
/// count.
proof fn lemma_try_run_listed(
    s: DeleteTryView,
    action: DeleteActionView,
    count: CountView,
    reply: Option<Seq<FileItemView>>,
)
    requires
        s.phase == TryPhaseView::Counting(count),
    ensures
        delete_try_run(s, action, listed_events(seq![reply])) == (
            counted(s, count_listed(count, reply)).0,
            counted(s, count_listed(count, reply)).1,
            Seq::<DeleteProgressView>::empty(),
        ),
{
    let one = listed_events(seq![reply]);
    assert(one[0] == DeleteEventView::Listed(reply));
    assert(one.drop_first() =~= Seq::empty());
    let step = delete_try_step(s, one[0]);
    assert(delete_try_run(step.0, step.1, one.drop_first()) == (
        step.0,
        step.1,
        Seq::<DeleteProgressView>::empty(),
    ));
}

/// The events of two runs of listings are the events of the first and
/// then those of the second.
proof fn lemma_listed_events_concat(
    a: Seq<Option<Seq<FileItemView>>>,
    b: Seq<Option<Seq<FileItemView>>>,
)
    ensures
        listed_events(a + b) == listed_events(a) + listed_events(b),
{
    assert(listed_events(a + b) =~= listed_events(a) + listed_events(b));
}

/// From a try whose count waits for the listing of `n`, what the server
/// tells while `n` is counted leads to the try whose count has taken the
/// items of `n` and goes on with what waited before, or, with nothing
/// waiting, to the deletion; no event is sent on the way.
proof fn lemma_try_counts_tree(
    s: DeleteTryView,
    action: DeleteActionView,
    count: CountView,
    n: TreeNode,
)
    requires
        s.phase == TryPhaseView::Counting(count),
        count.active,
        count.count + count_items(n) <= u64::MAX,
    ensures
        ({
            let after = counted(
                s,
                count_next(CountView { count: (count.count + count_items(n)) as u64, ..count }),
            );
            delete_try_run(s, action, listed_events(count_script(n))) == (
                after.0,
                after.1,
                Seq::<DeleteProgressView>::empty(),
            )
        }),
    decreases n, 0nat,
{
    match n.listing {
        None => {
            assert(count_script(n) =~= seq![None]);
            lemma_try_run_listed(s, action, count, None);
        },
        Some(children) => {
            let first = seq![Some(items_of(children))];
            let rest = children_script(children);
            assert(count_script(n) =~= first + rest);
            lemma_listed_events_concat(first, rest);
            lemma_try_run_concat(s, action, listed_events(first), listed_events(rest));
            lemma_try_run_listed(s, action, count, Some(items_of(children)));
            lemma_children_split(children);
            let taken = (count.count + 1 + files_in(items_of(children))) as u64;
            lemma_try_counts_entries(s, count.pending, taken, children);
            assert(Seq::<DeleteProgressView>::empty() + Seq::<DeleteProgressView>::empty()
                =~= Seq::<DeleteProgressView>::empty());
        },
    }
}

/// From a try in whose count the directories among `children` wait on top
/// of `below`, what the server tells while they are counted leads to the
/// try whose count has taken their items and goes on with `below`, or,
/// with nothing below, to the deletion; no event is sent on the way.
proof fn lemma_try_counts_entries(
    s: DeleteTryView,
    below: Seq<Seq<char>>,
    count: u64,
    children: Seq<TreeNode>,
)
    requires
        count + dir_items(children) <= u64::MAX,
    ensures
        ({
            let before = counted(
                s,
                count_next(
                    CountView {
                        pending: below + dirs_reversed(items_of(children)),
                        count,
                        active: true,
                    },
                ),
            );
            let after = counted(
                s,
                count_next(
                    CountView {
                        pending: below,
                        count: (count + dir_items(children)) as u64,
                        active: true,
                    },
                ),
            );
            delete_try_run(before.0, before.1, listed_events(children_script(children))) == (
                after.0,
                after.1,
                Seq::<DeleteProgressView>::empty(),
            )
        }),
    decreases children, 1nat,
{
    if children.len() == 0 {
        assert(dirs_reversed(items_of(children)) =~= Seq::empty());
        assert(below + Seq::<Seq<char>>::empty() =~= below);
        assert(listed_events(children_script(children)) =~= Seq::empty());
    } else {
        let rest = children.drop_first();
        assert(items_of(children).drop_first() =~= items_of(rest));
        assert(items_of(children)[0] == children[0].item);
        if children[0].item.is_directory {
            let waiting = below + dirs_reversed(items_of(rest));
            let all = below + dirs_reversed(items_of(children));
            assert(all =~= waiting.push(children[0].item.full_path));
            assert(all.drop_last() =~= waiting);
            let asked = CountView { pending: waiting, count, active: true };
            let before = counted(s, count_next(CountView { pending: all, count, active: true }));
            assert(before.0.phase == TryPhaseView::Counting(asked));
            lemma_listed_events_concat(count_script(children[0]), children_script(rest));
            lemma_try_run_concat(
                before.0,
                before.1,
                listed_events(count_script(children[0])),
                listed_events(children_script(rest)),
            );
            lemma_try_counts_tree(before.0, before.1, asked, children[0]);
            lemma_try_counts_entries(s, below, (count + count_items(children[0])) as u64, rest);
            assert(Seq::<DeleteProgressView>::empty() + Seq::<DeleteProgressView>::empty()
                =~= Seq::<DeleteProgressView>::empty());
        } else {
            lemma_try_counts_entries(s, below, count, rest);
        }
    }
}

/// A try that deletes goes as its deletion goes.
proof fn lemma_try_follows_deletion(
    s: DeleteTryView,
    walk: DeleteView,
    action: DeleteActionView,
    events: Seq<DeleteEventView>,
)
    requires
        s.phase == TryPhaseView::Deleting(walk),
    ensures
        ({
            let r = delete_run(walk, action, events);
            delete_try_run(s, action, events) == (
                DeleteTryView { phase: TryPhaseView::Deleting(r.0), ..s },
                r.1,
                r.2,
            )
        }),
    decreases events.len(),
{
    if events.len() > 0 {
        let step = delete_try_step(s, events[0]);
        lemma_try_follows_deletion(
            step.0,
            delete_step(walk, events[0]).0,
            step.1,
            events.drop_first(),
        );
    }
}

/// One try to delete the tree `n` at `path`, on a server that holds it and
/// lets every removal succeed, counts the tree and deletes it: the try
/// ends well, it sends exactly as many progress events as the tree has
/// items, the events count the deleted items up one by one against that
/// number as the total, and the last one tells of the total and of `100`
/// percent. That holds of every try, whatever an earlier try has left of
/// the tree.
pub proof fn lemma_delete_try(n: TreeNode, path: Seq<char>)
    requires
        count_items(n) <= u64::MAX,
    ensures
        ({
            let total = count_items(n) as u64;
            let r = delete_try_run(
                delete_try_start(path),
                DeleteActionView::List(path),
                delete_try_script(n),
            );
            &&& r.1 == DeleteActionView::Done
            &&& r.2.len() == count_items(n)
            &&& forall|k: int|
                0 <= k < r.2.len() ==> (#[trigger] r.2[k]).deleted_items == k + 1
                    && r.2[k].total_items == total
            &&& r.2.last().deleted_items == total
            &&& r.2.last().percent == 100
        }),
{
    let total = count_items(n) as u64;
    let start = delete_try_start(path);
    let list = DeleteActionView::List(path);
    let counting = listed_events(count_script(n));
    lemma_try_run_concat(start, list, counting, delete_script(n));
    lemma_try_counts_tree(start, list, count_start(), n);
    let name = last_segment_spec(path);
    let deleting = DeleteTryView {
        phase: TryPhaseView::Deleting(delete_start(path, name, total)),
        ..start
    };
    assert(delete_try_run(start, list, counting) == (
        deleting,
        list,
        Seq::<DeleteProgressView>::empty(),
    ));
    lemma_try_follows_deletion(deleting, delete_start(path, name, total), list, delete_script(n));
    lemma_delete_walk(n, path, name);
    let r = delete_run(delete_start(path, name, total), list, delete_script(n));
    assert(Seq::<DeleteProgressView>::empty() + r.2 =~= r.2);
    lemma_count_positive(n);
}

/// One try of a delete under way.
#[derive(Debug)]
pub struct DeleteTry {
    path: String,
    phase: TryPhase,
}

impl View for DeleteTry {
    type V = DeleteTryView;

    closed spec fn view(&self) -> DeleteTryView {
        DeleteTryView { path: self.path@, phase: self.phase@ }
    }
}

/// Begins one try to delete the tree at `path`. Returns the try and the
/// first thing to do, which is to list `path` for the count.
pub fn begin_delete_try(path: String) -> (r: (DeleteTry, DeleteAction))
    ensures
        r.0@ == delete_try_start(path@),
        r.1@ == DeleteActionView::List(path@),
{
    let (walk, _) = count_remote_items(path.clone());
    (DeleteTry { path: path.clone(), phase: TryPhase::Counting(walk) }, DeleteAction::List(path))
}

impl DeleteTry {
    /// The path that is to go.
    pub fn path(&self) -> (p: String)
        ensures
            p@ == self@.path,
    {
        self.path.clone()
    }

    /// Takes what the driver tells and says what to do next, with the
    /// progress event to send first, if there is one.
    pub fn advance(&mut self, event: DeleteEvent) -> (step: DeleteStep)
        ensures
            (final(self)@, step.action@, opt_progress(step.progress)) == delete_try_step(
                old(self)@,
                event@,
            ),
    {
        let mut phase = TryPhase::Ended;
        std::mem::swap(&mut phase, &mut self.phase);
        match phase {
            TryPhase::Counting(mut walk) => match event {
                DeleteEvent::Listed(reply) => match walk.listed(reply) {
                    CountStep::List(dir) => {
                        self.phase = TryPhase::Counting(walk);
                        DeleteStep { action: DeleteAction::List(dir), progress: None }
                    },
                    CountStep::Done(total) => {
                        let name = last_segment(self.path.as_str());
                        let (deletion, action) = delete_remote_recursive(
                            self.path.clone(),
                            name,
                            total,
                        );
                        self.phase = TryPhase::Deleting(deletion);
                        DeleteStep { action, progress: None }
                    },
                },
                DeleteEvent::Removed(_) => DeleteStep {
                    action: DeleteAction::Failed(string_of(&chars_of("Unexpected reply"))),
                    progress: None,
                },
            },
            TryPhase::Deleting(mut walk) => {
                let step = walk.advance(event);
                self.phase = TryPhase::Deleting(walk);
                step
            },
            TryPhase::Ended => DeleteStep { action: DeleteAction::Done, progress: None },
        }
    }
}

} // verus!
