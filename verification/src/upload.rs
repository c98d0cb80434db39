//! Uploading a local tree to a remote directory, one call at a time.
//!
//! A directory is made on the server, whether or not it was there, and
//! its entries follow in the order in which the local directory gives
//! them. A file is put as it is. A failure ends the walk at once; what has
//! been put stays, and the walk knows how many files that were.

use crate::command::{Failure, FailureView};
use crate::count::sat_add;
use crate::delete::unexpected_text;
use crate::download::{transfer_frames_of, TransferFrame, TransferFrameView};
use crate::listing::views_of;
use crate::models::{FileItem, FileItemView};
use crate::path::{child_path, child_path_spec};
use crate::text::{chars_of, string_of};
use crate::tree::{items_of, TreeNode};
use vstd::prelude::*;

verus! {

/// What the driver tells an upload.
#[derive(Debug)]
pub enum UploadEvent {
    /// The remote directory asked for was made, or not: it does not
    /// matter.
    Made,
    /// The entries of the local directory asked for, or the error.
    Entries(Result<Vec<FileItem>, String>),
    /// How the put asked for went; a failure tells which side let it fail.
    Put(Result<(), Failure>),
}

/// An `UploadEvent` with its texts as sequences of characters.
pub enum UploadEventView {
    Made,
    Entries(Result<Seq<FileItemView>, Seq<char>>),
    Put(Result<(), FailureView>),
}

impl View for UploadEvent {
    type V = UploadEventView;

    open spec fn view(&self) -> UploadEventView {
        match self {
            UploadEvent::Made => UploadEventView::Made,
            UploadEvent::Entries(Ok(entries)) => UploadEventView::Entries(Ok(views_of(entries@))),
            UploadEvent::Entries(Err(e)) => UploadEventView::Entries(Err(e@)),
            UploadEvent::Put(Ok(())) => UploadEventView::Put(Ok(())),
            UploadEvent::Put(Err(e)) => UploadEventView::Put(Err(e@)),
        }
    }
}

/// What the driver has to do next in an upload.
#[derive(Debug)]
pub enum UploadAction {
    /// Make this remote directory; a failure is of no concern.
    MakeRemoteDirectory(String),
    /// Read this local directory and hand over its entries.
    ReadLocalDirectory(String),
    /// Put the local file to the remote path and report the progress
    /// under `name`.
    Put { local: String, remote: String, name: String },
    /// Nothing: all is put.
    Done,
    /// Nothing: the walk has failed.
    Failed(Failure),
}

/// An `UploadAction` with its texts as sequences of characters.
pub enum UploadActionView {
    MakeRemoteDirectory(Seq<char>),
    ReadLocalDirectory(Seq<char>),
    Put { local: Seq<char>, remote: Seq<char>, name: Seq<char> },
    Done,
    Failed(FailureView),
}

impl View for UploadAction {
    type V = UploadActionView;

    open spec fn view(&self) -> UploadActionView {
        match self {
            UploadAction::MakeRemoteDirectory(p) => UploadActionView::MakeRemoteDirectory(p@),
            UploadAction::ReadLocalDirectory(p) => UploadActionView::ReadLocalDirectory(p@),
            UploadAction::Put { local, remote, name } => UploadActionView::Put {
                local: local@,
                remote: remote@,
                name: name@,
            },
            UploadAction::Done => UploadActionView::Done,
            UploadAction::Failed(reason) => UploadActionView::Failed(reason@),
        }
    }
}

/// What an upload waits to be told.
#[derive(Debug)]
pub enum UploadWaiting {
    /// That the remote directory was made, to which the local one goes.
    Making { local: String, remote: String },
    /// The entries of the local directory, which goes to the remote one.
    Reading { local: String, remote: String },
    /// The put of a file.
    Putting,
    /// Nothing: the walk has ended.
    Nothing,
}

/// An `UploadWaiting` with its texts as sequences of characters.
pub enum UploadWaitingView {
    Making { local: Seq<char>, remote: Seq<char> },
    Reading { local: Seq<char>, remote: Seq<char> },
    Putting,
    Nothing,
}

impl View for UploadWaiting {
    type V = UploadWaitingView;

    open spec fn view(&self) -> UploadWaitingView {
        match self {
            UploadWaiting::Making { local, remote } => UploadWaitingView::Making {
                local: local@,
                remote: remote@,
            },
            UploadWaiting::Reading { local, remote } => UploadWaitingView::Reading {
                local: local@,
                remote: remote@,
            },
            UploadWaiting::Putting => UploadWaitingView::Putting,
            UploadWaiting::Nothing => UploadWaitingView::Nothing,
        }
    }
}

/// The state of an upload.
pub struct UploadView {
    /// The directories being copied, the innermost last.
    pub stack: Seq<TransferFrameView>,
    pub waiting: UploadWaitingView,
    /// The files put so far.
    pub completed: u64,
}

/// The upload goes on with the directory on top: for its next entry, a
/// directory is made on the server under the remote path of the one that
/// holds it, and a file is put there; when no entry is left, the
/// directory is done and the upload goes on with the one that holds it.
/// With no directory left the upload has ended.
pub open spec fn upload_on(s: UploadView) -> (UploadView, UploadActionView)
    decreases s.stack.len(),
{
    if s.stack.len() == 0 {
        (UploadView { waiting: UploadWaitingView::Nothing, ..s }, UploadActionView::Done)
    } else {
        let top = s.stack.last();
        if top.next >= top.entries.len() {
            upload_on(UploadView { stack: s.stack.drop_last(), ..s })
        } else {
            let entry = top.entries[top.next as int];
            let remote = child_path_spec(top.target, entry.name);
            let stack = s.stack.drop_last().push(TransferFrameView { next: top.next + 1, ..top });
            if entry.is_directory {
                (
                    UploadView {
                        stack,
                        waiting: UploadWaitingView::Making { local: entry.full_path, remote },
                        ..s
                    },
                    UploadActionView::MakeRemoteDirectory(remote),
                )
            } else {
                (
                    UploadView { stack, waiting: UploadWaitingView::Putting, ..s },
                    UploadActionView::Put { local: entry.full_path, remote, name: entry.name },
                )
            }
        }
    }
}

/// How the upload goes on does not depend on what it waited for.
proof fn lemma_upload_on_forgets(a: UploadView, b: UploadView)
    requires
        a.stack == b.stack,
        a.completed == b.completed,
    ensures
        upload_on(a) == upload_on(b),
    decreases a.stack.len(),
{
    if a.stack.len() > 0 {
        let top = a.stack.last();
        if top.next >= top.entries.len() {
            lemma_upload_on_forgets(
                UploadView { stack: a.stack.drop_last(), ..a },
                UploadView { stack: b.stack.drop_last(), ..b },
            );
        }
    }
}

/// The upload that has failed.
pub open spec fn upload_ended(s: UploadView) -> UploadView {
    UploadView { waiting: UploadWaitingView::Nothing, ..s }
}

/// The upload and the next thing to do after `event`.
///
/// * Once the remote directory is made, or was not, the local one is
///   read; its entries open it and the upload goes on inside it. A local
///   directory that cannot be read ends the upload: the local side has
///   failed.
/// * After a put that succeeded the upload counts one more file and goes
///   on; one that failed ends it with the failure.
pub open spec fn upload_step(s: UploadView, event: UploadEventView) -> (
    UploadView,
    UploadActionView,
) {
    match (s.waiting, event) {
        (UploadWaitingView::Making { local, remote }, UploadEventView::Made) => (
            UploadView { waiting: UploadWaitingView::Reading { local, remote }, ..s },
            UploadActionView::ReadLocalDirectory(local),
        ),
        (
            UploadWaitingView::Reading { local, remote },
            UploadEventView::Entries(Ok(entries)),
        ) => upload_on(
            UploadView {
                stack: s.stack.push(
                    TransferFrameView { source: local, target: remote, entries, next: 0 },
                ),
                ..s
            },
        ),
        (UploadWaitingView::Reading { local, remote }, UploadEventView::Entries(Err(e))) => (
            upload_ended(s),
            UploadActionView::Failed(FailureView::Local(e)),
        ),
        (UploadWaitingView::Putting, UploadEventView::Put(Ok(()))) => upload_on(
            UploadView { completed: sat_add(s.completed, 1), ..s },
        ),
        (UploadWaitingView::Putting, UploadEventView::Put(Err(failure))) => (
            upload_ended(s),
            UploadActionView::Failed(failure),
        ),
        (UploadWaitingView::Nothing, _) => (s, UploadActionView::Done),
        _ => (upload_ended(s), UploadActionView::Failed(FailureView::Local(unexpected_text()))),
    }
}

/// The upload in which putting `local` to `remote` begins, and the first
/// thing to do: a directory is made on the server first; a file is put,
/// under the name `name`.
pub open spec fn upload_start(
    local: Seq<char>,
    remote: Seq<char>,
    name: Seq<char>,
    is_directory: bool,
) -> (UploadView, UploadActionView) {
    if is_directory {
        (
            UploadView {
                stack: Seq::empty(),
                waiting: UploadWaitingView::Making { local, remote },
                completed: 0,
            },
            UploadActionView::MakeRemoteDirectory(remote),
        )
    } else {
        (
            UploadView { stack: Seq::empty(), waiting: UploadWaitingView::Putting, completed: 0 },
            UploadActionView::Put { local, remote, name },
        )
    }
}

/// The upload, what it asks for next, and the things that it asked for
/// before each of `events`, told in order from the upload `s` that has
/// just asked for `action`.
pub open spec fn upload_trace(s: UploadView, action: UploadActionView, events: Seq<UploadEventView>)
    -> (UploadView, UploadActionView, Seq<UploadActionView>)
    decreases events.len(),
{
    if events.len() == 0 {
        (s, action, Seq::empty())
    } else {
        let step = upload_step(s, events[0]);
        let rest = upload_trace(step.0, step.1, events.drop_first());
        (rest.0, rest.1, seq![action] + rest.2)
    }
}

/// Whether the directory `n` and every directory below it can be read.
pub open spec fn readable(n: TreeNode) -> bool
    decreases n, 0nat,
{
    match n.listing {
        None => false,
        Some(children) => readable_entries(children),
    }
}

/// Whether every directory among `children`, and below them, can be read.
pub open spec fn readable_entries(children: Seq<TreeNode>) -> bool
    decreases children, 0nat,
{
    if children.len() == 0 {
        true
    } else {
        (children[0].item.is_directory ==> readable(children[0])) && readable_entries(
            children.drop_first(),
        )
    }
}

/// What a local disk that holds the directory `n`, and a server that
/// takes everything, tell while `n` is uploaded: that the directory was
/// made, the entries of `n`, and what they tell while each entry is
/// uploaded.
pub open spec fn directory_events(n: TreeNode) -> Seq<UploadEventView>
    decreases n, 0nat,
{
    match n.listing {
        None => Seq::empty(),
        Some(children) => seq![
            UploadEventView::Made,
            UploadEventView::Entries(Ok(items_of(children))),
        ] + entries_events(children),
    }
}

/// What is told while the entries `children` are uploaded, one after the
/// other.
pub open spec fn entries_events(children: Seq<TreeNode>) -> Seq<UploadEventView>
    decreases children, 0nat,
{
    if children.len() == 0 {
        Seq::empty()
    } else if children[0].item.is_directory {
        directory_events(children[0]) + entries_events(children.drop_first())
    } else {
        seq![UploadEventView::Put(Ok(()))] + entries_events(children.drop_first())
    }
}

/// What uploading the directory `n` from the local path `local` to the
/// remote path `remote` does, step by step: it makes `remote`, reads
/// `local`, and uploads each entry into `remote`.
pub open spec fn directory_actions(n: TreeNode, local: Seq<char>, remote: Seq<char>) -> Seq<
    UploadActionView,
>
    decreases n, 0nat,
{
    match n.listing {
        None => Seq::empty(),
        Some(children) => seq![
            UploadActionView::MakeRemoteDirectory(remote),
            UploadActionView::ReadLocalDirectory(local),
        ] + entries_actions(children, remote),
    }
}

/// What uploading the entries `children` into the remote directory
/// `remote` does: in the order in which the disk gave them, a directory
/// is uploaded as a tree of its own, and a file is put under its name.
pub open spec fn entries_actions(children: Seq<TreeNode>, remote: Seq<char>) -> Seq<
    UploadActionView,
>
    decreases children, 0nat,
{
    if children.len() == 0 {
        Seq::empty()
    } else {
        let item = children[0].item;
        let target = child_path_spec(remote, item.name);
        if item.is_directory {
            directory_actions(children[0], item.full_path, target) + entries_actions(
                children.drop_first(),
                remote,
            )
        } else {
            seq![UploadActionView::Put { local: item.full_path, remote: target, name: item.name }]
                + entries_actions(children.drop_first(), remote)
        }
    }
}

/// Number of files that uploading the entries `children` puts.
pub open spec fn entries_files(children: Seq<TreeNode>) -> nat
    decreases children, 0nat,
{
    if children.len() == 0 {
        0
    } else if children[0].item.is_directory {
        (match children[0].listing {
            Some(below) => entries_files(below),
            None => 0,
        }) + entries_files(children.drop_first())
    } else {
        1 + entries_files(children.drop_first())
    }
}

/// Telling two runs of events is telling the first and then the second.
proof fn lemma_upload_trace_concat(
    s: UploadView,
    action: UploadActionView,
    a: Seq<UploadEventView>,
    b: Seq<UploadEventView>,
)
    ensures
        ({
            let first = upload_trace(s, action, a);
            let second = upload_trace(first.0, first.1, b);
            upload_trace(s, action, a + b) == (second.0, second.1, first.2 + second.2)
        }),
    decreases a.len(),
{
    let first = upload_trace(s, action, a);
    let second = upload_trace(first.0, first.1, b);
    if a.len() == 0 {
        assert(a + b =~= b);
        assert(first.2 + second.2 =~= second.2);
    } else {
        let step = upload_step(s, a[0]);
        assert((a + b)[0] == a[0]);
        assert((a + b).drop_first() =~= a.drop_first() + b);
        lemma_upload_trace_concat(step.0, step.1, a.drop_first(), b);
        let rest = upload_trace(step.0, step.1, a.drop_first());
        assert(seq![action] + (rest.2 + second.2) =~= (seq![action] + rest.2) + second.2);
    }
}

/// Telling one event is taking one step.
proof fn lemma_upload_trace_one(s: UploadView, action: UploadActionView, event: UploadEventView)
    ensures
        upload_trace(s, action, seq![event]) == (
            upload_step(s, event).0,
            upload_step(s, event).1,
            seq![action],
        ),
{
    let one = seq![event];
    let step = upload_step(s, one[0]);
    assert(one.drop_first() =~= Seq::empty());
    let rest = upload_trace(step.0, step.1, one.drop_first());
    assert(seq![action] + rest.2 =~= seq![action]);
}

/// From an upload that has asked for the remote directory `remote`, to
/// which `local` goes, what is told while the directory `n` is uploaded
/// leads to the upload that has put the files of `n` and goes on where it
/// was; what it asked for on the way is what uploading `n` does.
proof fn lemma_upload_directory(s: UploadView, n: TreeNode, local: Seq<char>, remote: Seq<char>)
    requires
        s.waiting == (UploadWaitingView::Making { local, remote }),
        readable(n),
        s.completed + entries_files(n.listing.unwrap()) <= u64::MAX,
    ensures
        ({
            let after = upload_on(
                UploadView {
                    completed: (s.completed + entries_files(n.listing.unwrap())) as u64,
                    ..s
                },
            );
            upload_trace(s, UploadActionView::MakeRemoteDirectory(remote), directory_events(n))
                == (after.0, after.1, directory_actions(n, local, remote))
        }),
    decreases n, 0nat,
{
    let children = n.listing.unwrap();
    let make = UploadActionView::MakeRemoteDirectory(remote);
    let read = UploadActionView::ReadLocalDirectory(local);
    let made = seq![UploadEventView::Made];
    let entries = seq![UploadEventView::Entries(Ok(items_of(children)))];
    let inside = entries_events(children);
    assert(directory_events(n) =~= made + (entries + inside));
    lemma_upload_trace_concat(s, make, made, entries + inside);
    lemma_upload_trace_one(s, make, UploadEventView::Made);
    let reading = UploadView { waiting: UploadWaitingView::Reading { local, remote }, ..s };
    lemma_upload_trace_concat(reading, read, entries, inside);
    lemma_upload_trace_one(reading, read, entries[0]);
    let opened = UploadView {
        stack: s.stack.push(
            TransferFrameView {
                source: local,
                target: remote,
                entries: items_of(children),
                next: 0,
            },
        ),
        ..reading
    };
    assert(children.skip(0) =~= children);
    lemma_upload_entries(opened, children, 0);
    assert(opened.stack.drop_last() =~= s.stack);
    lemma_upload_on_forgets(
        UploadView {
            stack: opened.stack.drop_last(),
            completed: (opened.completed + entries_files(children)) as u64,
            ..opened
        },
        UploadView { completed: (s.completed + entries_files(children)) as u64, ..s },
    );
    assert(seq![make] + (seq![read] + entries_actions(children, remote)) =~= directory_actions(
        n,
        local,
        remote,
    ));
}

/// From an upload in which the directory on top has the entries
/// `children` and the first `i` of them are done, what is told while the
/// others are uploaded leads to the upload that has put their files and
/// goes on with the directory that holds the one on top; what it asked
/// for on the way is what uploading those entries does.
proof fn lemma_upload_entries(s: UploadView, children: Seq<TreeNode>, i: nat)
    requires
        s.stack.len() > 0,
        s.stack.last().entries == items_of(children),
        s.stack.last().next == i,
        i <= children.len(),
        readable_entries(children.skip(i as int)),
        s.completed + entries_files(children.skip(i as int)) <= u64::MAX,
    ensures
        ({
            let start = upload_on(s);
            let after = upload_on(
                UploadView {
                    stack: s.stack.drop_last(),
                    completed: (s.completed + entries_files(children.skip(i as int))) as u64,
                    ..s
                },
            );
            upload_trace(start.0, start.1, entries_events(children.skip(i as int))) == (
                after.0,
                after.1,
                entries_actions(children.skip(i as int), s.stack.last().target),
            )
        }),
    decreases children, children.len() - i,
{
    let left = children.skip(i as int);
    let top = s.stack.last();
    let below = s.stack.drop_last();
    let start = upload_on(s);
    if i == children.len() {
        assert(left =~= Seq::empty());
        lemma_upload_on_forgets(
            UploadView { stack: below, ..s },
            UploadView { stack: below, completed: s.completed, ..s },
        );
    } else {
        let child = children[i as int];
        let rest = children.skip(i + 1 as int);
        assert(left[0] == child);
        assert(left.drop_first() =~= rest);
        assert(items_of(children)[i as int] == child.item);
        assert(readable_entries(left) == ((left[0].item.is_directory ==> readable(left[0]))
            && readable_entries(left.drop_first())));
        assert(entries_files(left) == if left[0].item.is_directory {
            (match left[0].listing {
                Some(inner) => entries_files(inner),
                None => 0,
            }) + entries_files(left.drop_first())
        } else {
            1 + entries_files(left.drop_first())
        });
        let target = child_path_spec(top.target, child.item.name);
        let moved = below.push(TransferFrameView { next: i + 1, ..top });
        assert(moved.last() == (TransferFrameView { next: i + 1, ..top }));
        assert(moved.drop_last() =~= below);
        if child.item.is_directory {
            let asked = UploadView {
                stack: moved,
                waiting: UploadWaitingView::Making { local: child.item.full_path, remote: target },
                ..s
            };
            assert(start == (asked, UploadActionView::MakeRemoteDirectory(target)));
            let later = entries_events(rest);
            lemma_upload_trace_concat(asked, start.1, directory_events(child), later);
            lemma_upload_directory(asked, child, child.item.full_path, target);
            let back = UploadView {
                completed: (s.completed + entries_files(child.listing.unwrap())) as u64,
                ..asked
            };
            lemma_upload_entries(back, children, i + 1);
            lemma_upload_on_forgets(
                UploadView {
                    stack: back.stack.drop_last(),
                    completed: (back.completed + entries_files(rest)) as u64,
                    ..back
                },
                UploadView {
                    stack: below,
                    completed: (s.completed + entries_files(left)) as u64,
                    ..s
                },
            );
        } else {
            let asked = UploadView { stack: moved, waiting: UploadWaitingView::Putting, ..s };
            let put = seq![UploadEventView::Put(Ok(()))];
            lemma_upload_trace_concat(asked, start.1, put, entries_events(rest));
            lemma_upload_trace_one(asked, start.1, UploadEventView::Put(Ok(())));
            let back = UploadView { completed: (s.completed + 1) as u64, ..asked };
            lemma_upload_entries(back, children, i + 1);
            lemma_upload_on_forgets(
                UploadView {
                    stack: back.stack.drop_last(),
                    completed: (back.completed + entries_files(rest)) as u64,
                    ..back
                },
                UploadView {
                    stack: below,
                    completed: (s.completed + entries_files(left)) as u64,
                    ..s
                },
            );
        }
    }
}

/// Uploading the local directory `n`, which can be read all through, to a
/// server that takes everything does what `directory_actions` says, in
/// that order and nothing else, puts each of its files once, and ends
/// well. Uploading a single file puts it and ends well.
pub proof fn lemma_upload_walk(n: TreeNode, local: Seq<char>, remote: Seq<char>, name: Seq<char>)
    requires
        readable(n),
        entries_files(n.listing.unwrap()) <= u64::MAX,
    ensures
        ({
            let start = upload_start(local, remote, name, true);
            let r = upload_trace(start.0, start.1, directory_events(n));
            &&& r.1 == UploadActionView::Done
            &&& r.2 == directory_actions(n, local, remote)
            &&& r.0.completed == entries_files(n.listing.unwrap())
            &&& r.0.waiting == UploadWaitingView::Nothing
        }),
        ({
            let start = upload_start(local, remote, name, false);
            let r = upload_trace(start.0, start.1, seq![UploadEventView::Put(Ok(()))]);
            &&& start.1 == UploadActionView::Put { local, remote, name }
            &&& r.1 == UploadActionView::Done
            &&& r.0.completed == 1
        }),
{
    let start = upload_start(local, remote, name, true);
    lemma_upload_directory(start.0, n, local, remote);
    let file = upload_start(local, remote, name, false);
    lemma_upload_trace_one(file.0, file.1, UploadEventView::Put(Ok(())));
}

/// An upload under way.
#[derive(Debug)]
pub struct UploadWalk {
    stack: Vec<TransferFrame>,
    waiting: UploadWaiting,
    completed: u64,
}

impl View for UploadWalk {
    type V = UploadView;

    closed spec fn view(&self) -> UploadView {
        UploadView {
            stack: transfer_frames_of(self.stack@),
            waiting: self.waiting@,
            completed: self.completed,
        }
    }
}

/// Begins to upload the local path `local`, a directory or a file of the
/// name `name`, to the remote path `remote`. Returns the walk and the
/// first thing to do.
pub fn upload_recursive(local: String, remote: String, name: String, is_directory: bool) -> (r: (
    UploadWalk,
    UploadAction,
))
    ensures
        (r.0@, r.1@) == upload_start(local@, remote@, name@, is_directory),
{
    let stack: Vec<TransferFrame> = Vec::new();
    proof {
        assert(transfer_frames_of(stack@) =~= Seq::<TransferFrameView>::empty());
    }
    if is_directory {
        (
            UploadWalk {
                stack,
                waiting: UploadWaiting::Making { local, remote: remote.clone() },
                completed: 0,
            },
            UploadAction::MakeRemoteDirectory(remote),
        )
    } else {
        (
            UploadWalk { stack, waiting: UploadWaiting::Putting, completed: 0 },
            UploadAction::Put { local, remote, name },
        )
    }
}

impl UploadWalk {
    /// The files put so far: what is there when the walk has failed.
    pub fn completed(&self) -> (n: u64)
        ensures
            n == self@.completed,
    {
        self.completed
    }

    /// Goes on with the directory on top.
    fn go_on(&mut self) -> (action: UploadAction)
        ensures
            (final(self)@, action@) == upload_on(old(self)@),
    {
        loop
            invariant
                upload_on(self@) == upload_on(old(self)@),
            decreases self.stack.len(),
        {
            let ghost held = self.stack@;
            let top = match self.stack.pop() {
                None => {
                    self.waiting = UploadWaiting::Nothing;
                    return UploadAction::Done;
                },
                Some(top) => top,
            };
            proof {
                assert(transfer_frames_of(held).last() == top@);
                assert(transfer_frames_of(self.stack@) =~= transfer_frames_of(held).drop_last());
            }
            if top.next >= top.entries.len() {
                continue ;
            }
            proof {
                assert(top.entries@[top.next as int]@ == top@.entries[top.next as int]);
            }
            let local = top.entries[top.next].full_path.clone();
            let name = top.entries[top.next].name.clone();
            let is_directory = top.entries[top.next].is_directory;
            let remote = child_path(top.target.as_str(), name.as_str());
            let moved = TransferFrame {
                source: top.source,
                target: top.target,
                entries: top.entries,
                next: top.next + 1,
            };
            let ghost moved_view = moved@;
            let ghost below = self.stack@;
            self.stack.push(moved);
            proof {
                assert(transfer_frames_of(self.stack@) =~= transfer_frames_of(below).push(
                    moved_view,
                ));
            }
            if is_directory {
                self.waiting = UploadWaiting::Making { local, remote: remote.clone() };
                return UploadAction::MakeRemoteDirectory(remote);
            } else {
                self.waiting = UploadWaiting::Putting;
                return UploadAction::Put { local, remote, name };
            }
        }
    }

    /// Takes what the driver tells and says what to do next.
    pub fn advance(&mut self, event: UploadEvent) -> (action: UploadAction)
        ensures
            (final(self)@, action@) == upload_step(old(self)@, event@),
    {
        let mut waiting = UploadWaiting::Nothing;
        std::mem::swap(&mut waiting, &mut self.waiting);
        let ghost s = old(self)@;
        match (waiting, event) {
            (UploadWaiting::Making { local, remote }, UploadEvent::Made) => {
                self.waiting = UploadWaiting::Reading { local: local.clone(), remote };
                UploadAction::ReadLocalDirectory(local)
            },
            (UploadWaiting::Reading { local, remote }, UploadEvent::Entries(Ok(entries))) => {
                let ghost held = self.stack@;
                let frame = TransferFrame { source: local, target: remote, entries, next: 0 };
                let ghost opened = frame@;
                self.stack.push(frame);
                proof {
                    assert(transfer_frames_of(self.stack@) =~= transfer_frames_of(held).push(
                        opened,
                    ));
                    lemma_upload_on_forgets(
                        self@,
                        UploadView { stack: s.stack.push(opened), ..s },
                    );
                }
                self.go_on()
            },
            (UploadWaiting::Reading { local, remote }, UploadEvent::Entries(Err(e))) => {
                UploadAction::Failed(Failure::Local(e))
            },
            (UploadWaiting::Putting, UploadEvent::Put(Ok(()))) => {
                self.completed = self.completed.saturating_add(1);
                proof {
                    lemma_upload_on_forgets(
                        self@,
                        UploadView { completed: sat_add(s.completed, 1), ..s },
                    );
                }
                self.go_on()
            },
            (UploadWaiting::Putting, UploadEvent::Put(Err(failure))) => {
                UploadAction::Failed(failure)
            },
            (UploadWaiting::Nothing, _) => UploadAction::Done,
            _ => UploadAction::Failed(Failure::Local(string_of(&chars_of("Unexpected reply")))),
        }
    }
}

} // verus!
