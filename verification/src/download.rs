//! Downloading a remote tree into a local directory, one server call at a
//! time.
//!
//! A path that can be listed is a directory: it is made on the local side
//! and its entries follow in the order of the listing. A path that cannot
//! be listed is fetched as a single file. A failure ends the walk at once;
//! what has been fetched stays, and the walk knows how many files that
//! were.

use crate::command::{Failure, FailureView};
use crate::count::sat_add;
use crate::delete::unexpected_text;
use crate::listing::views_of;
use crate::tree::{items_of, TreeNode};
use crate::models::{FileItem, FileItemView};
use crate::text::{
    after_last_char, chars_of, equals_str, push_range, push_str_chars, string_of, strip_trailing,
};
use vstd::prelude::*;

verus! {

/// The path of the entry `name` inside the local directory `dir`: the two
/// joined by one slash; the name alone when `dir` is empty.
pub open spec fn local_child_spec(dir: Seq<char>, name: Seq<char>) -> Seq<char> {
    if dir.len() == 0 {
        name
    } else if dir.last() == '/' {
        dir + name
    } else {
        dir + seq!['/'] + name
    }
}

/// The name under which a remote path is shown while it is fetched: its
/// last segment, trailing slashes left aside; `unknown` when that is
/// empty, `.` or `..`.
pub open spec fn display_name_spec(path: Seq<char>) -> Seq<char> {
    let trimmed = strip_trailing(path, '/');
    let name = trimmed.skip(after_last_char(trimmed, '/'));
    if name.len() == 0 || name == "."@ || name == ".."@ {
        "unknown"@
    } else {
        name
    }
}

/// A directory that is being copied: where it is and where it goes, its
/// entries, and how many of them are done.
#[derive(Debug)]
pub struct TransferFrame {
    pub source: String,
    pub target: String,
    pub entries: Vec<FileItem>,
    pub next: usize,
}

/// A `TransferFrame` with its texts as sequences of characters.
pub struct TransferFrameView {
    pub source: Seq<char>,
    pub target: Seq<char>,
    pub entries: Seq<FileItemView>,
    pub next: nat,
}

impl View for TransferFrame {
    type V = TransferFrameView;

    open spec fn view(&self) -> TransferFrameView {
        TransferFrameView {
            source: self.source@,
            target: self.target@,
            entries: views_of(self.entries@),
            next: self.next as nat,
        }
    }
}

/// The views of some frames.
pub open spec fn transfer_frames_of(stack: Seq<TransferFrame>) -> Seq<TransferFrameView> {
    stack.map_values(|f: TransferFrame| f@)
}

/// What the driver tells a download.
#[derive(Debug)]
pub enum DownloadEvent {
    /// The listing asked for, or `None` if the path cannot be listed.
    Listed(Option<Vec<FileItem>>),
    /// The local directory asked for was made, or not: it does not matter.
    Made,
    /// How the fetch asked for went; a failure tells which side let it
    /// fail.
    Fetched(Result<(), Failure>),
}

/// A `DownloadEvent` with its texts as sequences of characters.
pub enum DownloadEventView {
    Listed(Option<Seq<FileItemView>>),
    Made,
    Fetched(Result<(), FailureView>),
}

impl View for DownloadEvent {
    type V = DownloadEventView;

    open spec fn view(&self) -> DownloadEventView {
        match self {
            DownloadEvent::Listed(Some(entries)) => DownloadEventView::Listed(
                Some(views_of(entries@)),
            ),
            DownloadEvent::Listed(None) => DownloadEventView::Listed(None),
            DownloadEvent::Made => DownloadEventView::Made,
            DownloadEvent::Fetched(Ok(())) => DownloadEventView::Fetched(Ok(())),
            DownloadEvent::Fetched(Err(e)) => DownloadEventView::Fetched(Err(e@)),
        }
    }
}

/// What the driver has to do next in a download.
#[derive(Debug)]
pub enum DownloadAction {
    /// List this remote path.
    List(String),
    /// Make this local directory, with the directories above it; a
    /// failure is of no concern.
    MakeLocalDirectory(String),
    /// Fetch the remote file into the local file and report the progress
    /// under `name`. `size` is the size that the listing gave; `None`
    /// means that the server has to be asked.
    Fetch { remote: String, local: String, name: String, size: Option<u64> },
    /// Nothing: all is fetched.
    Done,
    /// Nothing: the walk has failed.
    Failed(Failure),
}

/// A `DownloadAction` with its texts as sequences of characters.
pub enum DownloadActionView {
    List(Seq<char>),
    MakeLocalDirectory(Seq<char>),
    Fetch { remote: Seq<char>, local: Seq<char>, name: Seq<char>, size: Option<u64> },
    Done,
    Failed(FailureView),
}

impl View for DownloadAction {
    type V = DownloadActionView;

    open spec fn view(&self) -> DownloadActionView {
        match self {
            DownloadAction::List(p) => DownloadActionView::List(p@),
            DownloadAction::MakeLocalDirectory(p) => DownloadActionView::MakeLocalDirectory(p@),
            DownloadAction::Fetch { remote, local, name, size } => DownloadActionView::Fetch {
                remote: remote@,
                local: local@,
                name: name@,
                size: *size,
            },
            DownloadAction::Done => DownloadActionView::Done,
            DownloadAction::Failed(reason) => DownloadActionView::Failed(reason@),
        }
    }
}

/// What a download waits to be told.
#[derive(Debug)]
pub enum DownloadWaiting {
    /// The listing of the remote path, which goes to the local path.
    Listing { remote: String, local: String },
    /// That the local directory on top was made.
    Making,
    /// The fetch of a file.
    Fetching,
    /// Nothing: the walk has ended.
    Nothing,
}

/// A `DownloadWaiting` with its texts as sequences of characters.
pub enum DownloadWaitingView {
    Listing { remote: Seq<char>, local: Seq<char> },
    Making,
    Fetching,
    Nothing,
}

impl View for DownloadWaiting {
    type V = DownloadWaitingView;

    open spec fn view(&self) -> DownloadWaitingView {
        match self {
            DownloadWaiting::Listing { remote, local } => DownloadWaitingView::Listing {
                remote: remote@,
                local: local@,
            },
            DownloadWaiting::Making => DownloadWaitingView::Making,
            DownloadWaiting::Fetching => DownloadWaitingView::Fetching,
            DownloadWaiting::Nothing => DownloadWaitingView::Nothing,
        }
    }
}

/// The state of a download.
pub struct DownloadView {
    /// The directories being copied, the innermost last.
    pub stack: Seq<TransferFrameView>,
    pub waiting: DownloadWaitingView,
    /// The files fetched so far.
    pub completed: u64,
}

/// The download goes on with the directory on top: its next entry is
/// listed if it is shown as a directory and fetched if not; when no entry
/// is left, the directory is done and the download goes on with the one
/// that holds it. With no directory left the download has ended.
pub open spec fn download_on(s: DownloadView) -> (DownloadView, DownloadActionView)
    decreases s.stack.len(),
{
    if s.stack.len() == 0 {
        (DownloadView { waiting: DownloadWaitingView::Nothing, ..s }, DownloadActionView::Done)
    } else {
        let top = s.stack.last();
        if top.next >= top.entries.len() {
            download_on(DownloadView { stack: s.stack.drop_last(), ..s })
        } else {
            let entry = top.entries[top.next as int];
            let local = local_child_spec(top.target, entry.name);
            let stack = s.stack.drop_last().push(TransferFrameView { next: top.next + 1, ..top });
            if entry.is_directory {
                (
                    DownloadView {
                        stack,
                        waiting: DownloadWaitingView::Listing { remote: entry.full_path, local },
                        ..s
                    },
                    DownloadActionView::List(entry.full_path),
                )
            } else {
                (
                    DownloadView { stack, waiting: DownloadWaitingView::Fetching, ..s },
                    DownloadActionView::Fetch {
                        remote: entry.full_path,
                        local,
                        name: entry.name,
                        size: Some(entry.size),
                    },
                )
            }
        }
    }
}

/// How the download goes on does not depend on what it waited for.
proof fn lemma_download_on_forgets(a: DownloadView, b: DownloadView)
    requires
        a.stack == b.stack,
        a.completed == b.completed,
    ensures
        download_on(a) == download_on(b),
    decreases a.stack.len(),
{
    if a.stack.len() > 0 {
        let top = a.stack.last();
        if top.next >= top.entries.len() {
            lemma_download_on_forgets(
                DownloadView { stack: a.stack.drop_last(), ..a },
                DownloadView { stack: b.stack.drop_last(), ..b },
            );
        }
    }
}

/// The download that has failed.
pub open spec fn download_ended(s: DownloadView) -> DownloadView {
    DownloadView { waiting: DownloadWaitingView::Nothing, ..s }
}

/// The download and the next thing to do after `event`.
///
/// * A listing opens the directory: it is made on the local side, and
///   then the download goes on inside it. A path that cannot be listed is
///   fetched as a single file, whose size the server has to tell.
/// * After a fetch that succeeded the download counts one more file and
///   goes on; one that failed ends it with the failure.
pub open spec fn download_step(s: DownloadView, event: DownloadEventView) -> (
    DownloadView,
    DownloadActionView,
) {
    match (s.waiting, event) {
        (
            DownloadWaitingView::Listing { remote, local },
            DownloadEventView::Listed(Some(entries)),
        ) => (
            DownloadView {
                stack: s.stack.push(
                    TransferFrameView { source: remote, target: local, entries, next: 0 },
                ),
                waiting: DownloadWaitingView::Making,
                ..s
            },
            DownloadActionView::MakeLocalDirectory(local),
        ),
        (DownloadWaitingView::Listing { remote, local }, DownloadEventView::Listed(None)) => (
            DownloadView { waiting: DownloadWaitingView::Fetching, ..s },
            DownloadActionView::Fetch {
                remote,
                local,
                name: display_name_spec(remote),
                size: None,
            },
        ),
        (DownloadWaitingView::Making, DownloadEventView::Made) => download_on(s),
        (DownloadWaitingView::Fetching, DownloadEventView::Fetched(Ok(()))) => download_on(
            DownloadView { completed: sat_add(s.completed, 1), ..s },
        ),
        (DownloadWaitingView::Fetching, DownloadEventView::Fetched(Err(failure))) => (
            download_ended(s),
            DownloadActionView::Failed(failure),
        ),
        (DownloadWaitingView::Nothing, _) => (s, DownloadActionView::Done),
        _ => (
            download_ended(s),
            DownloadActionView::Failed(FailureView::Local(unexpected_text())),
        ),
    }
}

/// The download in which fetching `remote` into `local` begins.
pub open spec fn download_start(remote: Seq<char>, local: Seq<char>) -> DownloadView {
    DownloadView {
        stack: Seq::empty(),
        waiting: DownloadWaitingView::Listing { remote, local },
        completed: 0,
    }
}

/// The download, what it asks for next, and the things that it asked for
/// before each of `events`, told in order from the download `s` that has
/// just asked for `action`.
pub open spec fn download_trace(
    s: DownloadView,
    action: DownloadActionView,
    events: Seq<DownloadEventView>,
) -> (DownloadView, DownloadActionView, Seq<DownloadActionView>)
    decreases events.len(),
{
    if events.len() == 0 {
        (s, action, Seq::empty())
    } else {
        let step = download_step(s, events[0]);
        let rest = download_trace(step.0, step.1, events.drop_first());
        (rest.0, rest.1, seq![action] + rest.2)
    }
}

/// What a server that holds the tree `n`, and a local disk that takes
/// everything, tell while `n` is downloaded: the listing of `n`, and then
/// either that the file was fetched, or that the directory was made and
/// what they tell while each of its entries is downloaded.
pub open spec fn tree_events(n: TreeNode) -> Seq<DownloadEventView>
    decreases n, 0nat,
{
    match n.listing {
        None => seq![DownloadEventView::Listed(None), DownloadEventView::Fetched(Ok(()))],
        Some(children) => seq![
            DownloadEventView::Listed(Some(items_of(children))),
            DownloadEventView::Made,
        ] + entries_events(children),
    }
}

/// What is told while the entries `children` are downloaded, one after
/// the other.
pub open spec fn entries_events(children: Seq<TreeNode>) -> Seq<DownloadEventView>
    decreases children, 0nat,
{
    if children.len() == 0 {
        Seq::empty()
    } else if children[0].item.is_directory {
        tree_events(children[0]) + entries_events(children.drop_first())
    } else {
        seq![DownloadEventView::Fetched(Ok(()))] + entries_events(children.drop_first())
    }
}

/// What downloading the tree `n` from the path `remote` into `local` does,
/// step by step: it lists `remote`; if that fails, it fetches `remote` as
/// one file; if not, it makes the directory `local` and downloads each
/// entry into it.
pub open spec fn tree_actions(n: TreeNode, remote: Seq<char>, local: Seq<char>) -> Seq<
    DownloadActionView,
>
    decreases n, 0nat,
{
    match n.listing {
        None => seq![
            DownloadActionView::List(remote),
            DownloadActionView::Fetch {
                remote,
                local,
                name: display_name_spec(remote),
                size: None,
            },
        ],
        Some(children) => seq![
            DownloadActionView::List(remote),
            DownloadActionView::MakeLocalDirectory(local),
        ] + entries_actions(children, local),
    }
}

/// What downloading the entries `children` into the directory `local`
/// does: in the order of the listing, a directory is downloaded as a tree
/// of its own, and a file is fetched with the size that the listing gave.
pub open spec fn entries_actions(children: Seq<TreeNode>, local: Seq<char>) -> Seq<
    DownloadActionView,
>
    decreases children, 0nat,
{
    if children.len() == 0 {
        Seq::empty()
    } else {
        let item = children[0].item;
        let target = local_child_spec(local, item.name);
        if item.is_directory {
            tree_actions(children[0], item.full_path, target) + entries_actions(
                children.drop_first(),
                local,
            )
        } else {
            seq![
                DownloadActionView::Fetch {
                    remote: item.full_path,
                    local: target,
                    name: item.name,
                    size: Some(item.size),
                },
            ] + entries_actions(children.drop_first(), local)
        }
    }
}

/// Number of files that downloading the tree `n` fetches.
pub open spec fn tree_files(n: TreeNode) -> nat
    decreases n, 0nat,
{
    match n.listing {
        None => 1,
        Some(children) => entries_files(children),
    }
}

/// Number of files that downloading the entries `children` fetches.
pub open spec fn entries_files(children: Seq<TreeNode>) -> nat
    decreases children, 0nat,
{
    if children.len() == 0 {
        0
    } else if children[0].item.is_directory {
        tree_files(children[0]) + entries_files(children.drop_first())
    } else {
        1 + entries_files(children.drop_first())
    }
}

/// Telling two runs of events is telling the first and then the second.
proof fn lemma_download_trace_concat(
    s: DownloadView,
    action: DownloadActionView,
    a: Seq<DownloadEventView>,
    b: Seq<DownloadEventView>,
)
    ensures
        ({
            let first = download_trace(s, action, a);
            let second = download_trace(first.0, first.1, b);
            download_trace(s, action, a + b) == (second.0, second.1, first.2 + second.2)
        }),
    decreases a.len(),
{
    let first = download_trace(s, action, a);
    let second = download_trace(first.0, first.1, b);
    if a.len() == 0 {
        assert(a + b =~= b);
        assert(first.2 + second.2 =~= second.2);
    } else {
        let step = download_step(s, a[0]);
        assert((a + b)[0] == a[0]);
        assert((a + b).drop_first() =~= a.drop_first() + b);
        lemma_download_trace_concat(step.0, step.1, a.drop_first(), b);
        let rest = download_trace(step.0, step.1, a.drop_first());
        assert(seq![action] + (rest.2 + second.2) =~= (seq![action] + rest.2) + second.2);
    }
}

/// Telling one event is taking one step.
proof fn lemma_download_trace_one(
    s: DownloadView,
    action: DownloadActionView,
    event: DownloadEventView,
)
    ensures
        download_trace(s, action, seq![event]) == (
            download_step(s, event).0,
            download_step(s, event).1,
            seq![action],
        ),
{
    let one = seq![event];
    let step = download_step(s, one[0]);
    assert(one.drop_first() =~= Seq::empty());
    let rest = download_trace(step.0, step.1, one.drop_first());
    assert(seq![action] + rest.2 =~= seq![action]);
}

/// From a download that waits for the listing of `remote`, which goes to
/// `local`, what is told while the tree `n` is downloaded leads to the
/// download that has fetched the files of `n` and goes on where it was;
/// what it asked for on the way is what downloading `n` does.
proof fn lemma_download_tree(s: DownloadView, n: TreeNode, remote: Seq<char>, local: Seq<char>)
    requires
        s.waiting == (DownloadWaitingView::Listing { remote, local }),
        s.completed + tree_files(n) <= u64::MAX,
    ensures
        ({
            let after = download_on(
                DownloadView { completed: (s.completed + tree_files(n)) as u64, ..s },
            );
            download_trace(s, DownloadActionView::List(remote), tree_events(n)) == (
                after.0,
                after.1,
                tree_actions(n, remote, local),
            )
        }),
    decreases n, 0nat,
{
    let list = DownloadActionView::List(remote);
    match n.listing {
        None => {
            let first = seq![DownloadEventView::Listed(None)];
            let second = seq![DownloadEventView::Fetched(Ok(()))];
            assert(tree_events(n) =~= first + second);
            lemma_download_trace_concat(s, list, first, second);
            lemma_download_trace_one(s, list, DownloadEventView::Listed(None));
            let fetching = DownloadView { waiting: DownloadWaitingView::Fetching, ..s };
            let fetch = DownloadActionView::Fetch {
                remote,
                local,
                name: display_name_spec(remote),
                size: None,
            };
            lemma_download_trace_one(fetching, fetch, DownloadEventView::Fetched(Ok(())));
            lemma_download_on_forgets(
                DownloadView { completed: sat_add(fetching.completed, 1), ..fetching },
                DownloadView { completed: (s.completed + 1) as u64, ..s },
            );
            assert(seq![list] + seq![fetch] =~= tree_actions(n, remote, local));
        },
        Some(children) => {
            let listed = seq![DownloadEventView::Listed(Some(items_of(children)))];
            let made = seq![DownloadEventView::Made];
            let inside = entries_events(children);
            assert(tree_events(n) =~= listed + (made + inside));
            lemma_download_trace_concat(s, list, listed, made + inside);
            lemma_download_trace_one(s, list, listed[0]);
            let opened = DownloadView {
                stack: s.stack.push(
                    TransferFrameView {
                        source: remote,
                        target: local,
                        entries: items_of(children),
                        next: 0,
                    },
                ),
                waiting: DownloadWaitingView::Making,
                ..s
            };
            let make = DownloadActionView::MakeLocalDirectory(local);
            lemma_download_trace_concat(opened, make, made, inside);
            lemma_download_trace_one(opened, make, DownloadEventView::Made);
            assert(children.skip(0) =~= children);
            lemma_download_entries(opened, children, 0);
            assert(opened.stack.drop_last() =~= s.stack);
            lemma_download_on_forgets(
                DownloadView {
                    stack: opened.stack.drop_last(),
                    completed: (opened.completed + entries_files(children)) as u64,
                    ..opened
                },
                DownloadView { completed: (s.completed + tree_files(n)) as u64, ..s },
            );
            assert(seq![list] + (seq![make] + entries_actions(children, local)) =~= tree_actions(
                n,
                remote,
                local,
            ));
        },
    }
}

/// From a download in which the directory on top has the entries
/// `children` and the first `i` of them are done, what is told while the
/// others are downloaded leads to the download that has fetched their
/// files and goes on with the directory that holds the one on top; what
/// it asked for on the way is what downloading those entries does.
proof fn lemma_download_entries(s: DownloadView, children: Seq<TreeNode>, i: nat)
    requires
        s.stack.len() > 0,
        s.stack.last().entries == items_of(children),
        s.stack.last().next == i,
        i <= children.len(),
        s.completed + entries_files(children.skip(i as int)) <= u64::MAX,
    ensures
        ({
            let start = download_on(s);
            let after = download_on(
                DownloadView {
                    stack: s.stack.drop_last(),
                    completed: (s.completed + entries_files(children.skip(i as int))) as u64,
                    ..s
                },
            );
            download_trace(start.0, start.1, entries_events(children.skip(i as int))) == (
                after.0,
                after.1,
                entries_actions(children.skip(i as int), s.stack.last().target),
            )
        }),
    decreases children, children.len() - i,
{
    let left = children.skip(i as int);
    let top = s.stack.last();
    let below = s.stack.drop_last();
    let start = download_on(s);
    if i == children.len() {
        assert(left =~= Seq::empty());
        lemma_download_on_forgets(
            DownloadView { stack: below, ..s },
            DownloadView { stack: below, completed: s.completed, ..s },
        );
    } else {
        let child = children[i as int];
        let rest = children.skip(i + 1 as int);
        assert(left[0] == child);
        assert(left.drop_first() =~= rest);
        assert(items_of(children)[i as int] == child.item);
        let target = local_child_spec(top.target, child.item.name);
        let moved = below.push(TransferFrameView { next: i + 1, ..top });
        assert(moved.last() == (TransferFrameView { next: i + 1, ..top }));
        assert(moved.drop_last() =~= below);
        if child.item.is_directory {
            let asked = DownloadView {
                stack: moved,
                waiting: DownloadWaitingView::Listing {
                    remote: child.item.full_path,
                    local: target,
                },
                ..s
            };
            assert(start == (asked, DownloadActionView::List(child.item.full_path)));
            lemma_download_trace_concat(asked, start.1, tree_events(child), entries_events(rest));
            lemma_download_tree(asked, child, child.item.full_path, target);
            let back = DownloadView {
                completed: (s.completed + tree_files(child)) as u64,
                ..asked
            };
            lemma_download_entries(back, children, i + 1);
            lemma_download_on_forgets(
                DownloadView {
                    stack: back.stack.drop_last(),
                    completed: (back.completed + entries_files(rest)) as u64,
                    ..back
                },
                DownloadView {
                    stack: below,
                    completed: (s.completed + entries_files(left)) as u64,
                    ..s
                },
            );
        } else {
            let asked = DownloadView {
                stack: moved,
                waiting: DownloadWaitingView::Fetching,
                ..s
            };
            let fetched = seq![DownloadEventView::Fetched(Ok(()))];
            lemma_download_trace_concat(asked, start.1, fetched, entries_events(rest));
            lemma_download_trace_one(asked, start.1, DownloadEventView::Fetched(Ok(())));
            let back = DownloadView { completed: (s.completed + 1) as u64, ..asked };
            lemma_download_entries(back, children, i + 1);
            lemma_download_on_forgets(
                DownloadView {
                    stack: back.stack.drop_last(),
                    completed: (back.completed + entries_files(rest)) as u64,
                    ..back
                },
                DownloadView {
                    stack: below,
                    completed: (s.completed + entries_files(left)) as u64,
                    ..s
                },
            );
        }
    }
}

/// Downloading the tree `n` from a server that holds it, onto a local
/// disk that takes everything, does what `tree_actions` says, in that
/// order and nothing else, fetches each of its files once, and ends well.
pub proof fn lemma_download_walk(n: TreeNode, remote: Seq<char>, local: Seq<char>)
    requires
        tree_files(n) <= u64::MAX,
    ensures
        ({
            let r = download_trace(
                download_start(remote, local),
                DownloadActionView::List(remote),
                tree_events(n),
            );
            &&& r.1 == DownloadActionView::Done
            &&& r.2 == tree_actions(n, remote, local)
            &&& r.0.completed == tree_files(n)
            &&& r.0.waiting == DownloadWaitingView::Nothing
        }),
{
    lemma_download_tree(download_start(remote, local), n, remote, local);
}

/// The path of the entry `name` inside the local directory `dir`.
pub fn local_child(dir: &str, name: &str) -> (out: String)
    ensures
        out@ == local_child_spec(dir@, name@),
{
    let d = chars_of(dir);
    let mut out: Vec<char> = Vec::new();
    push_range(&mut out, &d, 0, d.len());
    proof {
        assert(d@.subrange(0, d.len() as int) =~= d@);
    }
    if d.len() > 0 && d[d.len() - 1] != '/' {
        out.push('/');
    }
    push_str_chars(&mut out, name);
    proof {
        assert(out@ =~= local_child_spec(dir@, name@));
    }
    string_of(&out)
}

/// The name under which a remote path is shown while it is fetched.
pub fn display_name(path: &str) -> (out: String)
    ensures
        out@ == display_name_spec(path@),
{
    let v = chars_of(path);
    let mut end: usize = v.len();
    proof {
        assert(v@.take(v.len() as int) =~= v@);
    }
    while end > 0 && v[end - 1] == '/'
        invariant
            end <= v.len(),
            strip_trailing(v@, '/') == strip_trailing(v@.take(end as int), '/'),
        decreases end,
    {
        proof {
            assert(v@.take(end as int).drop_last() =~= v@.take(end - 1));
        }
        end -= 1;
    }
    let ghost trimmed = v@.take(end as int);
    let mut start: usize = end;
    proof {
        assert(trimmed.take(end as int) =~= trimmed);
    }
    while start > 0 && v[start - 1] != '/'
        invariant
            start <= end <= v.len(),
            trimmed == v@.take(end as int),
            after_last_char(trimmed, '/') == after_last_char(trimmed.take(start as int), '/'),
        decreases start,
    {
        proof {
            assert(trimmed.take(start as int).drop_last() =~= trimmed.take(start - 1));
            assert(trimmed.take(start as int).last() == v@[start - 1]);
        }
        start -= 1;
    }
    proof {
        if start > 0 {
            assert(trimmed.take(start as int).last() == v@[start - 1]);
        }
        assert(v@.subrange(start as int, end as int) =~= trimmed.skip(start as int));
    }
    let mut name: Vec<char> = Vec::new();
    push_range(&mut name, &v, start, end);
    if name.len() == 0 || equals_str(&name, ".") || equals_str(
        &name,
        "..",
    ) {
        string_of(&chars_of("unknown"))
    } else {
        string_of(&name)
    }
}

/// A download under way.
#[derive(Debug)]
pub struct DownloadWalk {
    stack: Vec<TransferFrame>,
    waiting: DownloadWaiting,
    completed: u64,
}

impl View for DownloadWalk {
    type V = DownloadView;

    closed spec fn view(&self) -> DownloadView {
        DownloadView {
            stack: transfer_frames_of(self.stack@),
            waiting: self.waiting@,
            completed: self.completed,
        }
    }
}

/// Begins to download the remote path `remote` into the local path
/// `local`. Returns the walk and the first thing to do, which is to list
/// `remote`.
pub fn download_recursive(remote: String, local: String) -> (r: (DownloadWalk, DownloadAction))
    ensures
        r.0@ == download_start(remote@, local@),
        r.1@ == DownloadActionView::List(remote@),
{
    let walk = DownloadWalk {
        stack: Vec::new(),
        waiting: DownloadWaiting::Listing { remote: remote.clone(), local },
        completed: 0,
    };
    proof {
        assert(transfer_frames_of(walk.stack@) =~= Seq::<TransferFrameView>::empty());
    }
    (walk, DownloadAction::List(remote))
}

impl DownloadWalk {
    /// The files fetched so far: what is there when the walk has failed.
    pub fn completed(&self) -> (n: u64)
        ensures
            n == self@.completed,
    {
        self.completed
    }

    /// Goes on with the directory on top.
    fn go_on(&mut self) -> (action: DownloadAction)
        ensures
            (final(self)@, action@) == download_on(old(self)@),
    {
        loop
            invariant
                download_on(self@) == download_on(old(self)@),
            decreases self.stack.len(),
        {
            let ghost held = self.stack@;
            let top = match self.stack.pop() {
                None => {
                    self.waiting = DownloadWaiting::Nothing;
                    return DownloadAction::Done;
                },
                Some(top) => top,
            };
            proof {
                assert(transfer_frames_of(held).last() == top@);
                assert(transfer_frames_of(self.stack@) =~= transfer_frames_of(held).drop_last());
            }
            if top.next >= top.entries.len() {
                continue ;
            }
            proof {
                assert(top.entries@[top.next as int]@ == top@.entries[top.next as int]);
            }
            let remote = top.entries[top.next].full_path.clone();
            let name = top.entries[top.next].name.clone();
            let size = top.entries[top.next].size;
            let is_directory = top.entries[top.next].is_directory;
            let local = local_child(top.target.as_str(), name.as_str());
            let moved = TransferFrame {
                source: top.source,
                target: top.target,
                entries: top.entries,
                next: top.next + 1,
            };
            let ghost moved_view = moved@;
            let ghost below = self.stack@;
            self.stack.push(moved);
            proof {
                assert(transfer_frames_of(self.stack@) =~= transfer_frames_of(below).push(
                    moved_view,
                ));
            }
            if is_directory {
                self.waiting = DownloadWaiting::Listing { remote: remote.clone(), local };
                return DownloadAction::List(remote);
            } else {
                self.waiting = DownloadWaiting::Fetching;
                return DownloadAction::Fetch { remote, local, name, size: Some(size) };
            }
        }
    }

    /// Takes what the driver tells and says what to do next.
    pub fn advance(&mut self, event: DownloadEvent) -> (action: DownloadAction)
        ensures
            (final(self)@, action@) == download_step(old(self)@, event@),
    {
        let mut waiting = DownloadWaiting::Nothing;
        std::mem::swap(&mut waiting, &mut self.waiting);
        let ghost s = old(self)@;
        match (waiting, event) {
            (DownloadWaiting::Listing { remote, local }, DownloadEvent::Listed(Some(entries))) => {
                let ghost held = self.stack@;
                let frame = TransferFrame {
                    source: remote,
                    target: local.clone(),
                    entries,
                    next: 0,
                };
                let ghost opened = frame@;
                self.stack.push(frame);
                proof {
                    assert(transfer_frames_of(self.stack@) =~= transfer_frames_of(held).push(
                        opened,
                    ));
                }
                self.waiting = DownloadWaiting::Making;
                DownloadAction::MakeLocalDirectory(local)
            },
            (DownloadWaiting::Listing { remote, local }, DownloadEvent::Listed(None)) => {
                self.waiting = DownloadWaiting::Fetching;
                let name = display_name(remote.as_str());
                DownloadAction::Fetch { remote, local, name, size: None }
            },
            (DownloadWaiting::Making, DownloadEvent::Made) => {
                proof {
                    lemma_download_on_forgets(self@, s);
                }
                self.go_on()
            },
            (DownloadWaiting::Fetching, DownloadEvent::Fetched(Ok(()))) => {
                self.completed = self.completed.saturating_add(1);
                proof {
                    lemma_download_on_forgets(
                        self@,
                        DownloadView { completed: sat_add(s.completed, 1), ..s },
                    );
                }
                self.go_on()
            },
            (DownloadWaiting::Fetching, DownloadEvent::Fetched(Err(failure))) => {
                DownloadAction::Failed(failure)
            },
            (DownloadWaiting::Nothing, _) => DownloadAction::Done,
            _ => DownloadAction::Failed(Failure::Local(string_of(&chars_of("Unexpected reply")))),
        }
    }
}

} // verus!
