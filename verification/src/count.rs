//! Counting the items of a remote tree before it is deleted, so that the
//! progress of the deletion can be told as a share of the whole.
//!
//! The walk asks for one listing at a time. A directory counts as one item
//! and each file in it as one; a path that cannot be listed counts as one.

use crate::listing::{texts_of, views_of};
use crate::models::{FileItem, FileItemView};
use crate::tree::{children_items, count_items, entry_items, items_of, TreeNode};
use vstd::prelude::*;

verus! {

/// What the driver has to do next.
#[derive(Debug)]
pub enum CountStep {
    /// List this directory and hand over the entries, or `None` if it
    /// cannot be listed.
    List(String),
    /// The walk has ended with this many items.
    Done(u64),
}

/// A `CountStep` with its path as a sequence of characters.
pub enum CountStepView {
    List(Seq<char>),
    Done(u64),
}

impl View for CountStep {
    type V = CountStepView;

    open spec fn view(&self) -> CountStepView {
        match self {
            CountStep::List(path) => CountStepView::List(path@),
            CountStep::Done(n) => CountStepView::Done(*n),
        }
    }
}

/// The state of a counting walk.
pub struct CountView {
    /// The directories still to list; the last one is the next.
    pub pending: Seq<Seq<char>>,
    /// The items counted so far.
    pub count: u64,
    /// Whether a listing has been asked for.
    pub active: bool,
}

/// `a + b`, or the largest number that fits where the sum does not.
pub open spec fn sat_add(a: u64, b: nat) -> u64 {
    if a + b > u64::MAX {
        u64::MAX
    } else {
        (a + b) as u64
    }
}

/// Number of entries that are shown as files.
pub open spec fn files_in(entries: Seq<FileItemView>) -> nat
    decreases entries.len(),
{
    if entries.len() == 0 {
        0
    } else {
        (if entries[0].is_directory {
            0nat
        } else {
            1nat
        }) + files_in(entries.drop_first())
    }
}

/// The paths of the entries that are shown as directories, the last one
/// first.
pub open spec fn dirs_reversed(entries: Seq<FileItemView>) -> Seq<Seq<char>>
    decreases entries.len(),
{
    if entries.len() == 0 {
        Seq::empty()
    } else if entries[0].is_directory {
        dirs_reversed(entries.drop_first()).push(entries[0].full_path)
    } else {
        dirs_reversed(entries.drop_first())
    }
}

/// The walk goes on with the directory that waits last, or ends when none
/// waits.
pub open spec fn count_next(s: CountView) -> (CountView, CountStepView) {
    if s.pending.len() > 0 {
        (
            CountView { pending: s.pending.drop_last(), count: s.count, active: true },
            CountStepView::List(s.pending.last()),
        )
    } else {
        (
            CountView { pending: s.pending, count: s.count, active: false },
            CountStepView::Done(s.count),
        )
    }
}

/// The walk and its next step after the listing asked for has come back.
///
/// A path that cannot be listed counts as one item. A listing counts as
/// one item for the directory and one for each file in it; its
/// directories wait to be listed, the first of them next.
pub open spec fn count_listed(s: CountView, reply: Option<Seq<FileItemView>>) -> (
    CountView,
    CountStepView,
) {
    if !s.active {
        (s, CountStepView::Done(s.count))
    } else {
        match reply {
            None => count_next(CountView { count: sat_add(s.count, 1), ..s }),
            Some(entries) => count_next(
                CountView {
                    pending: s.pending + dirs_reversed(entries),
                    count: sat_add(s.count, 1 + files_in(entries)),
                    ..s
                },
            ),
        }
    }
}

/// The walk in which the counting of one path begins.
pub open spec fn count_start() -> CountView {
    CountView { pending: Seq::empty(), count: 0, active: true }
}

/// The walk and its last step after the listings `replies` have come back
/// in order, from the walk `s` whose last step was `step`.
pub open spec fn count_run(
    s: CountView,
    step: CountStepView,
    replies: Seq<Option<Seq<FileItemView>>>,
) -> (CountView, CountStepView)
    decreases replies.len(),
{
    if replies.len() == 0 {
        (s, step)
    } else {
        let (s1, step1) = count_listed(s, replies[0]);
        count_run(s1, step1, replies.drop_first())
    }
}

/// The listings that a server which holds the tree `n` gives while `n` is
/// counted: the listing of `n`, then, for each entry shown as a directory,
/// the listings given while that entry is counted.
pub open spec fn count_script(n: TreeNode) -> Seq<Option<Seq<FileItemView>>>
    decreases n, 0nat,
{
    match n.listing {
        None => seq![None],
        Some(children) => seq![Some(items_of(children))] + children_script(children),
    }
}

/// The listings given while the directories among `children` are counted,
/// one after the other.
pub open spec fn children_script(children: Seq<TreeNode>) -> Seq<Option<Seq<FileItemView>>>
    decreases children, 0nat,
{
    if children.len() == 0 {
        Seq::empty()
    } else if children[0].item.is_directory {
        count_script(children[0]) + children_script(children.drop_first())
    } else {
        children_script(children.drop_first())
    }
}

/// Number of items that the directories among `children` stand for.
pub open spec fn dir_items(children: Seq<TreeNode>) -> nat
    decreases children.len(),
{
    if children.len() == 0 {
        0
    } else if children[0].item.is_directory {
        count_items(children[0]) + dir_items(children.drop_first())
    } else {
        dir_items(children.drop_first())
    }
}

/// The entries of a listing stand for its files and for what its
/// directories stand for.
pub proof fn lemma_children_split(children: Seq<TreeNode>)
    ensures
        children_items(children) == files_in(items_of(children)) + dir_items(children),
    decreases children.len(),
{
    if children.len() > 0 {
        lemma_children_split(children.drop_first());
        assert(items_of(children).drop_first() =~= items_of(children.drop_first()));
        assert(items_of(children)[0] == children[0].item);
        assert(entry_items(children[0]) == if children[0].item.is_directory {
            count_items(children[0])
        } else {
            1
        });
    }
}

/// Running through one listing is taking that listing.
proof fn lemma_count_run_one(s: CountView, step: CountStepView, reply: Option<Seq<FileItemView>>)
    ensures
        count_run(s, step, seq![reply]) == count_listed(s, reply),
{
    let one = seq![reply];
    let (s1, step1) = count_listed(s, one[0]);
    assert(one.drop_first() =~= Seq::empty());
    assert(count_run(s1, step1, one.drop_first()) == (s1, step1));
}

/// Running through two runs of listings is running through the first and
/// then through the second.
proof fn lemma_count_run_concat(
    s: CountView,
    step: CountStepView,
    a: Seq<Option<Seq<FileItemView>>>,
    b: Seq<Option<Seq<FileItemView>>>,
)
    ensures
        count_run(s, step, a + b) == count_run(
            count_run(s, step, a).0,
            count_run(s, step, a).1,
            b,
        ),
    decreases a.len(),
{
    if a.len() == 0 {
        assert(a + b =~= b);
    } else {
        let (s1, step1) = count_listed(s, a[0]);
        assert((a + b)[0] == a[0]);
        assert((a + b).drop_first() =~= a.drop_first() + b);
        lemma_count_run_concat(s1, step1, a.drop_first(), b);
    }
}

/// From a walk that waits for the listing of `n`, the listings given while
/// `n` is counted lead to the walk that has counted the items of `n` more
/// and goes on with what waited before.
proof fn lemma_count_node(s: CountView, step: CountStepView, n: TreeNode)
    requires
        s.active,
    ensures
        count_run(s, step, count_script(n)) == count_next(
            CountView { count: sat_add(s.count, count_items(n)), ..s },
        ),
    decreases n, 0nat,
{
    match n.listing {
        None => {
            lemma_count_run_one(s, step, None);
        },
        Some(children) => {
            let first = seq![Some(items_of(children))];
            let rest = children_script(children);
            lemma_count_run_concat(s, step, first, rest);
            lemma_count_run_one(s, step, Some(items_of(children)));
            lemma_children_split(children);
            let listed = CountView {
                pending: s.pending + dirs_reversed(items_of(children)),
                count: sat_add(s.count, 1 + files_in(items_of(children))),
                ..s
            };
            lemma_count_children(s.pending, listed.count, children);
            assert(listed.pending == s.pending + dirs_reversed(items_of(children)));
        },
    }
}

/// From a walk in which the directories among `children` wait on top of
/// `below`, the listings given while they are counted lead to the walk
/// that has counted their items and goes on with `below`.
proof fn lemma_count_children(below: Seq<Seq<char>>, count: u64, children: Seq<TreeNode>)
    ensures
        ({
            let before = count_next(
                CountView {
                    pending: below + dirs_reversed(items_of(children)),
                    count,
                    active: true,
                },
            );
            count_run(before.0, before.1, children_script(children)) == count_next(
                CountView {
                    pending: below,
                    count: sat_add(count, dir_items(children)),
                    active: true,
                },
            )
        }),
    decreases children, 1nat,
{
    if children.len() == 0 {
        assert(dirs_reversed(items_of(children)) =~= Seq::empty());
        assert(below + Seq::<Seq<char>>::empty() =~= below);
    } else {
        let rest = children.drop_first();
        assert(items_of(children).drop_first() =~= items_of(rest));
        assert(items_of(children)[0] == children[0].item);
        if children[0].item.is_directory {
            let waiting = below + dirs_reversed(items_of(rest));
            let all = below + dirs_reversed(items_of(children));
            assert(all =~= waiting.push(children[0].item.full_path));
            assert(all.drop_last() =~= waiting);
            let before = count_next(CountView { pending: all, count, active: true });
            assert(before.0 == CountView { pending: waiting, count, active: true });
            lemma_count_run_concat(
                before.0,
                before.1,
                count_script(children[0]),
                children_script(rest),
            );
            lemma_count_node(before.0, before.1, children[0]);
            lemma_count_children(below, sat_add(count, count_items(children[0])), rest);
        } else {
            lemma_count_children(below, count, rest);
        }
    }
}

/// Counting the tree `n` on a server that holds it ends with the number of
/// items of `n`: one for `n`, and for each entry of its listing what that
/// entry stands for. A number that does not fit is told as the largest
/// that does.
pub proof fn lemma_count_walk(n: TreeNode, path: Seq<char>)
    ensures
        count_run(count_start(), CountStepView::List(path), count_script(n)) == (
            CountView { pending: Seq::empty(), count: sat_add(0, count_items(n)), active: false },
            CountStepView::Done(sat_add(0, count_items(n))),
        ),
        n.listing is Some ==> count_items(n) == 1 + children_items(n.listing.unwrap()),
        n.listing is None ==> count_items(n) == 1,
{
    lemma_count_node(count_start(), CountStepView::List(path), n);
}

/// A counting walk under way.
#[derive(Debug)]
pub struct CountWalk {
    pending: Vec<String>,
    count: u64,
    active: bool,
}

impl View for CountWalk {
    type V = CountView;

    closed spec fn view(&self) -> CountView {
        CountView {
            pending: texts_of(self.pending@),
            count: self.count,
            active: self.active,
        }
    }
}

/// Begins to count the items below and with `path`. Returns the walk and
/// its first step, which asks for the listing of `path`.
pub fn count_remote_items(path: String) -> (r: (CountWalk, CountStep))
    ensures
        r.0@ == count_start(),
        r.1@ == CountStepView::List(path@),
{
    let walk = CountWalk { pending: Vec::new(), count: 0, active: true };
    proof {
        assert(texts_of(walk.pending@) =~= Seq::<Seq<char>>::empty());
    }
    (walk, CountStep::List(path))
}

impl CountWalk {
    /// The items counted so far.
    pub fn count(&self) -> (n: u64)
        ensures
            n == self@.count,
    {
        self.count
    }

    /// Goes on with the directory that waits last.
    fn next(&mut self) -> (step: CountStep)
        ensures
            (final(self)@, step@) == count_next(old(self)@),
    {
        let ghost before = self.pending@;
        match self.pending.pop() {
            Some(path) => {
                self.active = true;
                proof {
                    assert(texts_of(self.pending@) =~= texts_of(
                        before,
                    ).drop_last());
                }
                CountStep::List(path)
            },
            None => {
                self.active = false;
                CountStep::Done(self.count)
            },
        }
    }

    /// Takes the listing that was asked for, `None` if the path could not
    /// be listed, and says what to do next.
    pub fn listed(&mut self, reply: Option<Vec<FileItem>>) -> (step: CountStep)
        ensures
            (final(self)@, step@) == count_listed(
                old(self)@,
                match reply {
                    Some(entries) => Some(views_of(entries@)),
                    None => None,
                },
            ),
    {
        if !self.active {
            return CountStep::Done(self.count);
        }
        match reply {
            None => {
                self.count = self.count.saturating_add(1);
            },
            Some(entries) => {
                let ghost below = texts_of(self.pending@);
                let ghost shown = views_of(entries@);
                let mut files: u64 = 0;
                let mut i: usize = entries.len();
                proof {
                    assert(shown.skip(entries.len() as int) =~= Seq::<FileItemView>::empty());
                    assert(below + Seq::<Seq<char>>::empty() =~= below);
                }
                while i > 0
                    invariant
                        i <= entries.len(),
                        shown == views_of(entries@),
                        files == files_in(shown.skip(i as int)),
                        files <= entries.len() - i,
                        texts_of(self.pending@) == below + dirs_reversed(
                            shown.skip(i as int),
                        ),
                        self.count == old(self).count,
                        self.active,
                    decreases i,
                {
                    i -= 1;
                    let ghost held = self.pending@;
                    proof {
                        assert(shown.skip(i as int).drop_first() =~= shown.skip(i + 1));
                        assert(shown.skip(i as int)[0] == entries@[i as int]@);
                    }
                    if entries[i].is_directory {
                        self.pending.push(entries[i].full_path.clone());
                        proof {
                            assert(texts_of(self.pending@)
                                =~= texts_of(held).push(
                                entries@[i as int]@.full_path,
                            ));
                            assert(texts_of(self.pending@) =~= below
                                + dirs_reversed(shown.skip(i as int)));
                        }
                    } else {
                        files += 1;
                    }
                }
                proof {
                    assert(shown.skip(0) =~= shown);
                }
                self.count = self.count.saturating_add(1).saturating_add(files);
            },
        }
        self.next()
    }
}

} // verus!
