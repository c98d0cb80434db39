//! Searching a remote tree for names that match a query.
//!
//! The walk lists one directory at a time and goes through its entries in
//! order: an entry that matches is a hit; an entry that is a directory is
//! searched next, before the entries that follow it. Hidden directories
//! are searched only when the query itself begins with a dot. A directory
//! below the first that cannot be listed is passed over.

use crate::delete::{frames_of, Frame, FrameView};
use crate::listing::views_of;
use crate::models::{FileItem, FileItemView};
use crate::search::{matches_query, matches_query_spec};
use crate::text::{chars_of, equals_str};
use crate::tree::{items_of, TreeNode};
use vstd::prelude::*;

verus! {

/// What the driver has to do next.
#[derive(Debug)]
pub enum SearchStep {
    /// List this directory and hand over the entries, or the error.
    List(String),
    /// The search has ended with these hits.
    Done(Vec<FileItem>),
    /// The search has failed for this reason.
    Failed(String),
}

/// A `SearchStep` with its texts as sequences of characters.
pub enum SearchStepView {
    List(Seq<char>),
    Done(Seq<FileItemView>),
    Failed(Seq<char>),
}

impl View for SearchStep {
    type V = SearchStepView;

    open spec fn view(&self) -> SearchStepView {
        match self {
            SearchStep::List(p) => SearchStepView::List(p@),
            SearchStep::Done(hits) => SearchStepView::Done(views_of(hits@)),
            SearchStep::Failed(reason) => SearchStepView::Failed(reason@),
        }
    }
}

/// What a search waits to be told.
#[derive(Clone, Copy, Debug, PartialEq, Eq, Structural)]
pub enum SearchWaiting {
    /// The listing of the directory in which the search begins.
    First,
    /// The listing of a directory below it.
    Below,
    /// Nothing: the search has ended.
    Nothing,
}

/// The state of a search.
pub struct SearchView {
    pub query: Seq<char>,
    /// The directories being gone through, the innermost last.
    pub stack: Seq<FrameView>,
    /// The hits so far.
    pub hits: Seq<FileItemView>,
    pub waiting: SearchWaiting,
}

/// Whether a search for `query` goes into the directory `name`: never
/// into `.` or `..`, and into a name that begins with a dot only when the
/// query does so too.
pub open spec fn descends(name: Seq<char>, query: Seq<char>) -> bool {
    &&& name != "."@
    &&& name != ".."@
    &&& (name.len() > 0 && name[0] == '.') ==> (query.len() > 0 && query[0] == '.')
}

/// The work that is left in the directory on top, for the proof that a
/// step ends.
pub open spec fn left_on_top(s: SearchView) -> nat {
    if s.stack.len() > 0 && s.stack.last().next < s.stack.last().entries.len() {
        (s.stack.last().entries.len() - s.stack.last().next) as nat
    } else {
        0
    }
}

/// The search ends and hands its hits over; none stay behind.
pub open spec fn handed_over(s: SearchView) -> (SearchView, SearchStepView) {
    (
        SearchView { waiting: SearchWaiting::Nothing, hits: Seq::empty(), ..s },
        SearchStepView::Done(s.hits),
    )
}

/// The search goes on through the entries of the directory on top: each
/// entry that matches is a hit; at a directory to go into, the search
/// asks for its listing; at the end of the entries the directory is done
/// and the search goes on with the one that held it. With no directory
/// left the search ends with its hits.
pub open spec fn search_on(s: SearchView) -> (SearchView, SearchStepView)
    decreases s.stack.len(), left_on_top(s),
{
    if s.stack.len() == 0 {
        handed_over(s)
    } else {
        let top = s.stack.last();
        if top.next >= top.entries.len() {
            search_on(SearchView { stack: s.stack.drop_last(), ..s })
        } else {
            let entry = top.entries[top.next as int];
            let moved = SearchView {
                stack: s.stack.drop_last().push(FrameView { next: top.next + 1, ..top }),
                hits: if matches_query_spec(entry.name, s.query) {
                    s.hits.push(entry)
                } else {
                    s.hits
                },
                ..s
            };
            if entry.is_directory && descends(entry.name, s.query) {
                (
                    SearchView { waiting: SearchWaiting::Below, ..moved },
                    SearchStepView::List(entry.full_path),
                )
            } else {
                search_on(moved)
            }
        }
    }
}

/// The search and its next step after the listing asked for has come
/// back. The first directory has to be listed, or the search fails with
/// the error; a directory below it that cannot be listed is passed over.
pub open spec fn search_listed(
    s: SearchView,
    path: Seq<char>,
    reply: Result<Seq<FileItemView>, Seq<char>>,
) -> (SearchView, SearchStepView) {
    match s.waiting {
        SearchWaiting::Nothing => handed_over(s),
        _ => match reply {
            Ok(entries) => search_on(
                SearchView { stack: s.stack.push(FrameView { path, entries, next: 0 }), ..s },
            ),
            Err(e) => if s.waiting == SearchWaiting::First {
                (SearchView { waiting: SearchWaiting::Nothing, ..s }, SearchStepView::Failed(e))
            } else {
                search_on(s)
            },
        },
    }
}

/// The search in which looking for `query` begins.
pub open spec fn search_start(query: Seq<char>) -> SearchView {
    SearchView {
        query,
        stack: Seq::empty(),
        hits: Seq::empty(),
        waiting: SearchWaiting::First,
    }
}

/// The search and its last step after the listings `replies` have come
/// back in order, each for the path that the step before it asked for.
pub open spec fn search_run(
    s: SearchView,
    step: SearchStepView,
    replies: Seq<Result<Seq<FileItemView>, Seq<char>>>,
) -> (SearchView, SearchStepView)
    decreases replies.len(),
{
    if replies.len() == 0 {
        (s, step)
    } else {
        match step {
            SearchStepView::List(path) => {
                let next = search_listed(s, path, replies[0]);
                search_run(next.0, next.1, replies.drop_first())
            },
            _ => (s, step),
        }
    }
}

/// Whether a search for `query` goes into the entry `child`.
pub open spec fn goes_into(child: TreeNode, query: Seq<char>) -> bool {
    child.item.is_directory && descends(child.item.name, query)
}

/// The hits of a search for `query` among the entries `children` and
/// below them, in the order of the walk.
pub open spec fn found_in(children: Seq<TreeNode>, query: Seq<char>) -> Seq<FileItemView>
    decreases children, 0nat,
{
    if children.len() == 0 {
        Seq::empty()
    } else {
        hits_of(children[0], query) + found_in(children.drop_first(), query)
    }
}

/// The hits of a search for `query` at the entry `child` and below it:
/// the entry itself if it matches, and then, if it is a directory that the
/// search goes into and that can be listed, the hits among its entries.
pub open spec fn hits_of(child: TreeNode, query: Seq<char>) -> Seq<FileItemView>
    decreases child, 1nat,
{
    let own = if matches_query_spec(child.item.name, query) {
        seq![child.item]
    } else {
        Seq::empty()
    };
    if goes_into(child, query) && child.listing is Some {
        own + found_in(child.listing.unwrap(), query)
    } else {
        own
    }
}

/// The listings that a server which holds the entries `children` gives
/// while they are searched for `query`.
pub open spec fn search_script(children: Seq<TreeNode>, query: Seq<char>) -> Seq<
    Result<Seq<FileItemView>, Seq<char>>,
>
    decreases children, 0nat,
{
    if children.len() == 0 {
        Seq::empty()
    } else {
        entry_script(children[0], query) + search_script(children.drop_first(), query)
    }
}

/// The listings that the server gives while the entry `child` is searched
/// for `query`: none if the search does not go into it, an error if it
/// cannot be listed, and else its listing and the listings below it.
pub open spec fn entry_script(child: TreeNode, query: Seq<char>) -> Seq<
    Result<Seq<FileItemView>, Seq<char>>,
>
    decreases child, 1nat,
{
    if !goes_into(child, query) {
        Seq::empty()
    } else {
        match child.listing {
            Some(below) => seq![Ok(items_of(below))] + search_script(below, query),
            None => seq![Err(Seq::empty())],
        }
    }
}

/// How the search goes on does not depend on what it waited for.
proof fn lemma_search_on_forgets(a: SearchView, b: SearchView)
    requires
        a.query == b.query,
        a.stack == b.stack,
        a.hits == b.hits,
    ensures
        search_on(a) == search_on(b),
    decreases a.stack.len(), left_on_top(a),
{
    if a.stack.len() > 0 {
        let top = a.stack.last();
        if top.next >= top.entries.len() {
            lemma_search_on_forgets(
                SearchView { stack: a.stack.drop_last(), ..a },
                SearchView { stack: b.stack.drop_last(), ..b },
            );
        } else {
            let entry = top.entries[top.next as int];
            if !(entry.is_directory && descends(entry.name, a.query)) {
                let stack = a.stack.drop_last().push(FrameView { next: top.next + 1, ..top });
                let hits = if matches_query_spec(entry.name, a.query) {
                    a.hits.push(entry)
                } else {
                    a.hits
                };
                lemma_search_on_forgets(
                    SearchView { stack, hits, ..a },
                    SearchView { stack, hits, ..b },
                );
            }
        }
    }
}

/// Going through two runs of listings is going through the first and then
/// through the second.
proof fn lemma_search_run_concat(
    s: SearchView,
    step: SearchStepView,
    a: Seq<Result<Seq<FileItemView>, Seq<char>>>,
    b: Seq<Result<Seq<FileItemView>, Seq<char>>>,
)
    ensures
        search_run(s, step, a + b) == search_run(
            search_run(s, step, a).0,
            search_run(s, step, a).1,
            b,
        ),
    decreases a.len(),
{
    if a.len() == 0 {
        assert(a + b =~= b);
    } else {
        assert((a + b)[0] == a[0]);
        assert((a + b).drop_first() =~= a.drop_first() + b);
        match step {
            SearchStepView::List(path) => {
                let next = search_listed(s, path, a[0]);
                lemma_search_run_concat(next.0, next.1, a.drop_first(), b);
            },
            _ => {
                assert(search_run(s, step, a) == (s, step));
                if b.len() > 0 {
                    assert(search_run(s, step, b) == (s, step));
                }
            },
        }
    }
}

/// Going through one listing is taking that listing.
proof fn lemma_search_run_one(
    s: SearchView,
    path: Seq<char>,
    reply: Result<Seq<FileItemView>, Seq<char>>,
)
    ensures
        search_run(s, SearchStepView::List(path), seq![reply]) == search_listed(s, path, reply),
{
    let one = seq![reply];
    let next = search_listed(s, path, one[0]);
    assert(one.drop_first() =~= Seq::empty());
    assert(search_run(next.0, next.1, one.drop_first()) == next);
}

/// From a search in which the directory on top has the entries `children`
/// and the first `i` of them are done, the listings given while the
/// others are searched lead to the search that has their hits and goes on
/// with the directory that holds the one on top.
proof fn lemma_search_entries(s: SearchView, children: Seq<TreeNode>, i: nat)
    requires
        s.stack.len() > 0,
        s.stack.last().entries == items_of(children),
        s.stack.last().next == i,
        i <= children.len(),
    ensures
        ({
            let start = search_on(s);
            search_run(start.0, start.1, search_script(children.skip(i as int), s.query))
                == search_on(
                SearchView {
                    stack: s.stack.drop_last(),
                    hits: s.hits + found_in(children.skip(i as int), s.query),
                    ..s
                },
            )
        }),
    decreases children, children.len() - i,
{
    let left = children.skip(i as int);
    let top = s.stack.last();
    let below = s.stack.drop_last();
    if i == children.len() {
        assert(left =~= Seq::empty());
        assert(s.hits + Seq::<FileItemView>::empty() =~= s.hits);
        lemma_search_on_forgets(
            SearchView { stack: below, ..s },
            SearchView { stack: below, hits: s.hits + found_in(left, s.query), ..s },
        );
    } else {
        let child = children[i as int];
        assert(left[0] == child);
        assert(left.drop_first() =~= children.skip(i + 1 as int));
        assert(items_of(children)[i as int] == child.item);
        let rest = children.skip(i + 1 as int);
        assert(found_in(left, s.query) == hits_of(left[0], s.query) + found_in(
            left.drop_first(),
            s.query,
        ));
        let own = if matches_query_spec(child.item.name, s.query) {
            seq![child.item]
        } else {
            Seq::empty()
        };
        let moved = SearchView {
            stack: below.push(FrameView { next: i + 1, ..top }),
            hits: if matches_query_spec(child.item.name, s.query) {
                s.hits.push(child.item)
            } else {
                s.hits
            },
            ..s
        };
        assert(moved.hits =~= s.hits + own);
        assert(moved.stack.last() == (FrameView { next: i + 1, ..top }));
        assert(moved.stack.drop_last() =~= below);
        if goes_into(child, s.query) {
            let asked = SearchView { waiting: SearchWaiting::Below, ..moved };
            let step = SearchStepView::List(child.item.full_path);
            assert(search_on(s) == (asked, step));
            let own_script = entry_script(child, s.query);
            lemma_search_run_concat(asked, step, own_script, search_script(rest, s.query));
            match child.listing {
                Some(inner) => {
                    let first = seq![Ok::<Seq<FileItemView>, Seq<char>>(items_of(inner))];
                    let opened = SearchView {
                        stack: asked.stack.push(
                            FrameView {
                                path: child.item.full_path,
                                entries: items_of(inner),
                                next: 0,
                            },
                        ),
                        ..asked
                    };
                    lemma_search_run_concat(asked, step, first, search_script(inner, s.query));
                    lemma_search_run_one(asked, child.item.full_path, first[0]);
                    assert(search_run(asked, step, first) == search_on(opened));
                    assert(inner.skip(0) =~= inner);
                    assert(opened.stack.drop_last() =~= asked.stack);
                    lemma_search_entries(opened, inner, 0);
                    let back = SearchView {
                        stack: asked.stack,
                        hits: opened.hits + found_in(inner, s.query),
                        ..opened
                    };
                    let again = SearchView { waiting: s.waiting, ..back };
                    lemma_search_on_forgets(back, again);
                    lemma_search_entries(again, children, i + 1);
                    assert(hits_of(child, s.query) == own + found_in(inner, s.query));
                    assert(back.hits + found_in(rest, s.query) =~= s.hits + (own + found_in(
                        inner,
                        s.query,
                    ) + found_in(rest, s.query)));
                },
                None => {
                    let failed = seq![Err::<Seq<FileItemView>, Seq<char>>(Seq::empty())];
                    assert(own_script == failed);
                    lemma_search_run_one(asked, child.item.full_path, failed[0]);
                    assert(search_run(asked, step, failed) == search_on(asked));
                    lemma_search_on_forgets(asked, moved);
                    lemma_search_entries(moved, children, i + 1);
                    assert(hits_of(child, s.query) == own);
                    assert(moved.hits + found_in(rest, s.query) =~= s.hits + (own + found_in(
                        rest,
                        s.query,
                    )));
                },
            }
        } else {
            assert(search_on(s) == search_on(moved));
            assert(entry_script(child, s.query) =~= Seq::empty());
            assert(search_script(left, s.query) =~= search_script(rest, s.query));
            lemma_search_entries(moved, children, i + 1);
            assert(hits_of(child, s.query) == own);
            assert(moved.hits + found_in(rest, s.query) =~= s.hits + (own + found_in(
                rest,
                s.query,
            )));
        }
    }
}

/// A search for `query` in a directory that a server lists with the
/// entries `children` ends with the hits among them and below them, in the
/// order of the walk; a search in a path that cannot be listed fails with
/// the error of the listing.
pub proof fn lemma_search_walk(
    path: Seq<char>,
    query: Seq<char>,
    children: Seq<TreeNode>,
    error: Seq<char>,
)
    ensures
        search_run(
            search_start(query),
            SearchStepView::List(path),
            seq![Ok(items_of(children))] + search_script(children, query),
        ).1 == SearchStepView::Done(found_in(children, query)),
        search_run(search_start(query), SearchStepView::List(path), seq![Err(error)]).1
            == SearchStepView::Failed(error),
{
    let start = search_start(query);
    let step = SearchStepView::List(path);
    let first = seq![Ok::<Seq<FileItemView>, Seq<char>>(items_of(children))];
    lemma_search_run_concat(start, step, first, search_script(children, query));
    lemma_search_run_one(start, path, first[0]);
    lemma_search_run_one(start, path, Err(error));
    let opened = SearchView {
        stack: start.stack.push(FrameView { path, entries: items_of(children), next: 0 }),
        ..start
    };
    assert(search_run(start, step, first) == search_on(opened));
    assert(children.skip(0) =~= children);
    lemma_search_entries(opened, children, 0);
    assert(opened.stack.drop_last() =~= Seq::<FrameView>::empty());
    assert(start.hits + found_in(children, query) =~= found_in(children, query));
}

/// Whether a search for `query` goes into the directory `name`.
pub fn should_descend(name: &str, query: &str) -> (r: bool)
    ensures
        r == descends(name@, query@),
{
    let n = chars_of(name);
    let q = chars_of(query);
    if equals_str(&n, ".") || equals_str(&n, "..") {
        return false;
    }
    if n.len() > 0 && n[0] == '.' {
        q.len() > 0 && q[0] == '.'
    } else {
        true
    }
}

/// A search under way.
#[derive(Debug)]
pub struct SearchWalk {
    query: String,
    stack: Vec<Frame>,
    hits: Vec<FileItem>,
    waiting: SearchWaiting,
}

impl View for SearchWalk {
    type V = SearchView;

    closed spec fn view(&self) -> SearchView {
        SearchView {
            query: self.query@,
            stack: frames_of(self.stack@),
            hits: views_of(self.hits@),
            waiting: self.waiting,
        }
    }
}

/// Begins a search for `query` in the directory `path` and below it.
/// Returns the search and its first step, which asks for the listing of
/// `path`.
pub fn search_remote(path: String, query: String) -> (r: (SearchWalk, SearchStep))
    ensures
        r.0@ == search_start(query@),
        r.1@ == SearchStepView::List(path@),
{
    let walk = SearchWalk {
        query,
        stack: Vec::new(),
        hits: Vec::new(),
        waiting: SearchWaiting::First,
    };
    proof {
        assert(frames_of(walk.stack@) =~= Seq::<FrameView>::empty());
        assert(views_of(walk.hits@) =~= Seq::<FileItemView>::empty());
    }
    (walk, SearchStep::List(path))
}

impl SearchWalk {
    /// Ends the search and hands the hits over.
    fn hand_over(&mut self) -> (step: SearchStep)
        ensures
            (final(self)@, step@) == handed_over(old(self)@),
    {
        self.waiting = SearchWaiting::Nothing;
        let mut hits: Vec<FileItem> = Vec::new();
        std::mem::swap(&mut hits, &mut self.hits);
        proof {
            assert(views_of(self.hits@) =~= Seq::<FileItemView>::empty());
        }
        SearchStep::Done(hits)
    }

    /// Goes on through the entries of the directory on top.
    fn go_on(&mut self) -> (step: SearchStep)
        ensures
            (final(self)@, step@) == search_on(old(self)@),
    {
        loop
            invariant
                search_on(self@) == search_on(old(self)@),
            decreases self@.stack.len(), left_on_top(self@),
        {
            let ghost before = self@;
            let ghost held = self.stack@;
            let top = match self.stack.pop() {
                None => {
                    return self.hand_over();
                },
                Some(top) => top,
            };
            proof {
                assert(frames_of(held).last() == top@);
                assert(frames_of(self.stack@) =~= frames_of(held).drop_last());
            }
            if top.next >= top.entries.len() {
                continue ;
            }
            let ghost entry = top@.entries[top.next as int];
            let ghost found = views_of(self.hits@);
            let is_hit = matches_query(top.entries[top.next].name.as_str(), self.query.as_str());
            let goes_in = top.entries[top.next].is_directory && should_descend(
                top.entries[top.next].name.as_str(),
                self.query.as_str(),
            );
            let child = top.entries[top.next].full_path.clone();
            proof {
                assert(top.entries@[top.next as int]@ == entry);
            }
            if is_hit {
                self.hits.push(top.entries[top.next].clone());
                proof {
                    assert(views_of(self.hits@) =~= found.push(entry));
                }
            }
            let moved = Frame { path: top.path, entries: top.entries, next: top.next + 1 };
            let ghost moved_view = moved@;
            let ghost below = self.stack@;
            self.stack.push(moved);
            proof {
                assert(frames_of(self.stack@) =~= frames_of(below).push(moved_view));
            }
            if goes_in {
                self.waiting = SearchWaiting::Below;
                return SearchStep::List(child);
            }
        }
    }

    /// Takes the listing of `path`, which was asked for, or the error, and
    /// says what to do next.
    pub fn listed(&mut self, path: String, reply: Result<Vec<FileItem>, String>) -> (step:
        SearchStep)
        ensures
            (final(self)@, step@) == search_listed(
                old(self)@,
                path@,
                match reply {
                    Ok(entries) => Ok(views_of(entries@)),
                    Err(e) => Err(e@),
                },
            ),
    {
        match self.waiting {
            SearchWaiting::Nothing => self.hand_over(),
            _ => match reply {
                Ok(entries) => {
                    let ghost held = self.stack@;
                    let frame = Frame { path, entries, next: 0 };
                    let ghost opened = frame@;
                    self.stack.push(frame);
                    proof {
                        assert(frames_of(self.stack@) =~= frames_of(held).push(opened));
                    }
                    self.go_on()
                },
                Err(e) => {
                    if self.waiting == SearchWaiting::First {
                        self.waiting = SearchWaiting::Nothing;
                        SearchStep::Failed(e)
                    } else {
                        self.go_on()
                    }
                },
            },
        }
    }
}

} // verus!
