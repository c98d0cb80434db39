//! Deleting a remote tree: files first, then the directory that held
//! them, one server call at a time, with a progress event after each item
//! that is gone.
//!
//! A failure ends the walk at once; what is gone stays gone.

use crate::count::sat_add;
use crate::listing::views_of;
use crate::models::{FileItem, FileItemView};
use crate::path::{last_segment, last_segment_spec};
use crate::progress::{percent_of, percent_spec};
use crate::text::{chars_of, push_str_chars, string_of};
use crate::tree::{
    children_items, count_items, entry_items, items_of, lemma_count_positive, TreeNode,
};
use vstd::prelude::*;

verus! {

/// One progress event of a deletion.
#[derive(Debug)]
pub struct DeleteProgress {
    /// The name of what the user asked to delete.
    pub item_name: String,
    /// Whole percent done, `0` to `100`.
    pub percent: u8,
    /// The name of the item that has just gone.
    pub current_item: String,
    pub total_items: u64,
    pub deleted_items: u64,
}

/// A `DeleteProgress` with its texts as sequences of characters.
pub struct DeleteProgressView {
    pub item_name: Seq<char>,
    pub percent: u8,
    pub current_item: Seq<char>,
    pub total_items: u64,
    pub deleted_items: u64,
}

impl View for DeleteProgress {
    type V = DeleteProgressView;

    open spec fn view(&self) -> DeleteProgressView {
        DeleteProgressView {
            item_name: self.item_name@,
            percent: self.percent,
            current_item: self.current_item@,
            total_items: self.total_items,
            deleted_items: self.deleted_items,
        }
    }
}

/// What the driver tells the walk.
#[derive(Debug)]
pub enum DeleteEvent {
    /// The listing asked for, or `None` if the path cannot be listed.
    Listed(Option<Vec<FileItem>>),
    /// How the removal asked for went; a failure carries the error text.
    Removed(Result<(), String>),
}

/// A `DeleteEvent` with its texts as sequences of characters.
pub enum DeleteEventView {
    Listed(Option<Seq<FileItemView>>),
    Removed(Result<(), Seq<char>>),
}

impl View for DeleteEvent {
    type V = DeleteEventView;

    open spec fn view(&self) -> DeleteEventView {
        match self {
            DeleteEvent::Listed(Some(entries)) => DeleteEventView::Listed(Some(views_of(entries@))),
            DeleteEvent::Listed(None) => DeleteEventView::Listed(None),
            DeleteEvent::Removed(Ok(())) => DeleteEventView::Removed(Ok(())),
            DeleteEvent::Removed(Err(e)) => DeleteEventView::Removed(Err(e@)),
        }
    }
}

/// What the driver has to do next.
#[derive(Debug)]
pub enum DeleteAction {
    /// List this path.
    List(String),
    /// Remove this file.
    RemoveFile(String),
    /// Remove this directory, which is empty by now.
    RemoveDirectory(String),
    /// Nothing: all is deleted.
    Done,
    /// Nothing: the walk has failed for this reason.
    Failed(String),
}

/// A `DeleteAction` with its texts as sequences of characters.
pub enum DeleteActionView {
    List(Seq<char>),
    RemoveFile(Seq<char>),
    RemoveDirectory(Seq<char>),
    Done,
    Failed(Seq<char>),
}

impl View for DeleteAction {
    type V = DeleteActionView;

    open spec fn view(&self) -> DeleteActionView {
        match self {
            DeleteAction::List(p) => DeleteActionView::List(p@),
            DeleteAction::RemoveFile(p) => DeleteActionView::RemoveFile(p@),
            DeleteAction::RemoveDirectory(p) => DeleteActionView::RemoveDirectory(p@),
            DeleteAction::Done => DeleteActionView::Done,
            DeleteAction::Failed(reason) => DeleteActionView::Failed(reason@),
        }
    }
}

/// A directory that is being emptied: its path, its entries, and how many
/// of them are done.
#[derive(Debug)]
pub struct Frame {
    pub path: String,
    pub entries: Vec<FileItem>,
    pub next: usize,
}

/// A `Frame` with its texts as sequences of characters.
pub struct FrameView {
    pub path: Seq<char>,
    pub entries: Seq<FileItemView>,
    pub next: nat,
}

impl View for Frame {
    type V = FrameView;

    open spec fn view(&self) -> FrameView {
        FrameView { path: self.path@, entries: views_of(self.entries@), next: self.next as nat }
    }
}

/// What the walk waits to be told.
#[derive(Debug)]
pub enum Waiting {
    /// The listing of this path.
    Listing(String),
    /// The removal of the file of this name and path, an entry of the
    /// directory on top.
    EntryRemoval { name: String, full_path: String },
    /// The removal, as a file, of this path, which could not be listed.
    SelfRemoval(String),
    /// The removal of the directory on top, which has this path.
    DirectoryRemoval(String),
    /// Nothing: the walk has ended.
    Nothing,
}

/// A `Waiting` with its texts as sequences of characters.
pub enum WaitingView {
    Listing(Seq<char>),
    EntryRemoval { name: Seq<char>, full_path: Seq<char> },
    SelfRemoval(Seq<char>),
    DirectoryRemoval(Seq<char>),
    Nothing,
}

impl View for Waiting {
    type V = WaitingView;

    open spec fn view(&self) -> WaitingView {
        match self {
            Waiting::Listing(p) => WaitingView::Listing(p@),
            Waiting::EntryRemoval { name, full_path } => WaitingView::EntryRemoval {
                name: name@,
                full_path: full_path@,
            },
            Waiting::SelfRemoval(p) => WaitingView::SelfRemoval(p@),
            Waiting::DirectoryRemoval(p) => WaitingView::DirectoryRemoval(p@),
            Waiting::Nothing => WaitingView::Nothing,
        }
    }
}

/// The state of a deleting walk.
pub struct DeleteView {
    /// The name of what the user asked to delete.
    pub item_name: Seq<char>,
    pub total_items: u64,
    pub deleted_items: u64,
    /// The directories being emptied, the innermost last.
    pub stack: Seq<FrameView>,
    pub waiting: WaitingView,
}

/// The views of some frames.
pub open spec fn frames_of(stack: Seq<Frame>) -> Seq<FrameView> {
    stack.map_values(|f: Frame| f@)
}

/// The walk goes on with the directory on top: its next entry is listed
/// if it is shown as a directory and removed if not; when no entry is
/// left, the directory itself is removed. With no directory on top the
/// walk has ended.
pub open spec fn proceed(s: DeleteView) -> (DeleteView, DeleteActionView) {
    if s.stack.len() == 0 {
        (DeleteView { waiting: WaitingView::Nothing, ..s }, DeleteActionView::Done)
    } else {
        let top = s.stack.last();
        if top.next < top.entries.len() {
            let entry = top.entries[top.next as int];
            if entry.is_directory {
                (
                    DeleteView { waiting: WaitingView::Listing(entry.full_path), ..s },
                    DeleteActionView::List(entry.full_path),
                )
            } else {
                (
                    DeleteView {
                        waiting: WaitingView::EntryRemoval {
                            name: entry.name,
                            full_path: entry.full_path,
                        },
                        ..s
                    },
                    DeleteActionView::RemoveFile(entry.full_path),
                )
            }
        } else {
            (
                DeleteView { waiting: WaitingView::DirectoryRemoval(top.path), ..s },
                DeleteActionView::RemoveDirectory(top.path),
            )
        }
    }
}

/// The walk goes on after an entry of the directory on top is done.
pub open spec fn returned(s: DeleteView) -> (DeleteView, DeleteActionView) {
    if s.stack.len() == 0 {
        (DeleteView { waiting: WaitingView::Nothing, ..s }, DeleteActionView::Done)
    } else {
        let top = s.stack.last();
        let moved = FrameView {
            next: if top.next < top.entries.len() {
                top.next + 1
            } else {
                top.next
            },
            ..top
        };
        proceed(DeleteView { stack: s.stack.drop_last().push(moved), ..s })
    }
}

/// The event that tells that `current_item` has gone, in the walk `s` that
/// has counted it already.
pub open spec fn progress_of(s: DeleteView, current_item: Seq<char>) -> DeleteProgressView {
    DeleteProgressView {
        item_name: s.item_name,
        percent: percent_spec(s.deleted_items as nat, s.total_items as nat) as u8,
        current_item,
        total_items: s.total_items,
        deleted_items: s.deleted_items,
    }
}

/// The walk after one more item has gone.
pub open spec fn one_more(s: DeleteView) -> DeleteView {
    DeleteView { deleted_items: sat_add(s.deleted_items, 1), ..s }
}

/// The walk that has failed.
pub open spec fn ended(s: DeleteView) -> DeleteView {
    DeleteView { waiting: WaitingView::Nothing, ..s }
}

/// The reason given for a reply that does not answer what was asked.
pub open spec fn unexpected_text() -> Seq<char> {
    "Unexpected reply"@
}

/// The walk, the next thing to do and the progress event to send, after
/// `event`.
///
/// * A listing opens the directory and the walk goes on inside it; a path
///   that cannot be listed is removed as a file.
/// * A removal that succeeded counts one more item and tells of it; the
///   walk goes on with the next entry, or, after a directory, with the
///   next entry of the directory that held it.
/// * A removal that failed ends the walk with a reason that names the
///   path.
pub open spec fn delete_step(s: DeleteView, event: DeleteEventView) -> (
    DeleteView,
    DeleteActionView,
    Option<DeleteProgressView>,
) {
    match (s.waiting, event) {
        (WaitingView::Listing(path), DeleteEventView::Listed(Some(entries))) => {
            let opened = DeleteView {
                stack: s.stack.push(FrameView { path, entries, next: 0 }),
                ..s
            };
            (proceed(opened).0, proceed(opened).1, None)
        },
        (WaitingView::Listing(path), DeleteEventView::Listed(None)) => (
            DeleteView { waiting: WaitingView::SelfRemoval(path), ..s },
            DeleteActionView::RemoveFile(path),
            None,
        ),
        (WaitingView::EntryRemoval { name, full_path }, DeleteEventView::Removed(Ok(()))) => (
            returned(one_more(s)).0,
            returned(one_more(s)).1,
            Some(progress_of(one_more(s), name)),
        ),
        (WaitingView::EntryRemoval { name, full_path }, DeleteEventView::Removed(Err(_))) => (
            ended(s),
            DeleteActionView::Failed("Failed to delete file: "@ + full_path),
            None,
        ),
        (WaitingView::SelfRemoval(path), DeleteEventView::Removed(Ok(()))) => (
            returned(one_more(s)).0,
            returned(one_more(s)).1,
            Some(progress_of(one_more(s), last_segment_spec(path))),
        ),
        (WaitingView::SelfRemoval(path), DeleteEventView::Removed(Err(_))) => (
            ended(s),
            DeleteActionView::Failed("Failed to delete file: "@ + path),
            None,
        ),
        (WaitingView::DirectoryRemoval(path), DeleteEventView::Removed(Ok(()))) => {
            let closed = DeleteView {
                stack: if s.stack.len() > 0 {
                    s.stack.drop_last()
                } else {
                    s.stack
                },
                ..one_more(s)
            };
            (
                returned(closed).0,
                returned(closed).1,
                Some(progress_of(closed, last_segment_spec(path))),
            )
        },
        (WaitingView::DirectoryRemoval(path), DeleteEventView::Removed(Err(e))) => (
            ended(s),
            DeleteActionView::Failed("Failed to remove directory "@ + path + ": "@ + e),
            None,
        ),
        (WaitingView::Nothing, _) => (s, DeleteActionView::Done, None),
        _ => (ended(s), DeleteActionView::Failed(unexpected_text()), None),
    }
}

/// The walk in which the deletion of `path` begins, when its tree holds
/// `total_items` items and is shown to the user as `item_name`.
pub open spec fn delete_start(path: Seq<char>, item_name: Seq<char>, total_items: u64)
    -> DeleteView {
    DeleteView {
        item_name,
        total_items,
        deleted_items: 0,
        stack: Seq::empty(),
        waiting: WaitingView::Listing(path),
    }
}

/// A deleting walk under way.
#[derive(Debug)]
pub struct DeleteWalk {
    item_name: String,
    total_items: u64,
    deleted_items: u64,
    stack: Vec<Frame>,
    waiting: Waiting,
}

impl View for DeleteWalk {
    type V = DeleteView;

    closed spec fn view(&self) -> DeleteView {
        DeleteView {
            item_name: self.item_name@,
            total_items: self.total_items,
            deleted_items: self.deleted_items,
            stack: frames_of(self.stack@),
            waiting: self.waiting@,
        }
    }
}

/// What a step of the walk hands to the driver: the next thing to do, and
/// the progress event to send first, if there is one.
#[derive(Debug)]
pub struct DeleteStep {
    pub action: DeleteAction,
    pub progress: Option<DeleteProgress>,
}

/// The view of an optional progress event.
pub open spec fn opt_progress(p: Option<DeleteProgress>) -> Option<DeleteProgressView> {
    match p {
        Some(e) => Some(e@),
        None => None,
    }
}

/// Begins to delete the tree at `path`, which holds `total_items` items
/// and is shown to the user as `item_name`. Returns the walk and the first
/// thing to do, which is to list `path`.
pub fn delete_remote_recursive(path: String, item_name: String, total_items: u64) -> (r: (
    DeleteWalk,
    DeleteAction,
))
    ensures
        r.0@ == delete_start(path@, item_name@, total_items),
        r.1@ == DeleteActionView::List(path@),
{
    let walk = DeleteWalk {
        item_name,
        total_items,
        deleted_items: 0,
        stack: Vec::new(),
        waiting: Waiting::Listing(path.clone()),
    };
    proof {
        assert(frames_of(walk.stack@) =~= Seq::<FrameView>::empty());
    }
    (walk, DeleteAction::List(path))
}

impl DeleteWalk {
    /// Items deleted so far.
    pub fn deleted_items(&self) -> (n: u64)
        ensures
            n == self@.deleted_items,
    {
        self.deleted_items
    }

    /// Items that the tree held when the walk began.
    pub fn total_items(&self) -> (n: u64)
        ensures
            n == self@.total_items,
    {
        self.total_items
    }

    /// Goes on with the directory on top.
    fn go_on(&mut self) -> (action: DeleteAction)
        ensures
            (final(self)@, action@) == proceed(old(self)@),
    {
        let depth = self.stack.len();
        if depth == 0 {
            self.waiting = Waiting::Nothing;
            return DeleteAction::Done;
        }
        let top = &self.stack[depth - 1];
        proof {
            assert(frames_of(self.stack@).last() == top@);
        }
        if top.next < top.entries.len() {
            let entry = &top.entries[top.next];
            proof {
                assert(top@.entries[top.next as int] == entry@);
            }
            let full_path = entry.full_path.clone();
            if entry.is_directory {
                self.waiting = Waiting::Listing(full_path.clone());
                DeleteAction::List(full_path)
            } else {
                let name = entry.name.clone();
                self.waiting = Waiting::EntryRemoval { name, full_path: full_path.clone() };
                DeleteAction::RemoveFile(full_path)
            }
        } else {
            let path = top.path.clone();
            self.waiting = Waiting::DirectoryRemoval(path.clone());
            DeleteAction::RemoveDirectory(path)
        }
    }

    /// Goes on after an entry of the directory on top is done.
    fn go_back(&mut self) -> (action: DeleteAction)
        ensures
            (final(self)@, action@) == returned(old(self)@),
    {
        let ghost before = self.stack@;
        match self.stack.pop() {
            None => {
                self.waiting = Waiting::Nothing;
                DeleteAction::Done
            },
            Some(mut top) => {
                let ghost was = top@;
                if top.next < top.entries.len() {
                    top.next = top.next + 1;
                }
                let ghost moved = top@;
                self.stack.push(top);
                proof {
                    assert(frames_of(before).last() == was);
                    assert(frames_of(self.stack@) =~= frames_of(before).drop_last().push(moved));
                }
                self.go_on()
            },
        }
    }

    /// Counts one more item gone and makes the event that tells of it.
    fn tick(&mut self, current_item: String) -> (event: DeleteProgress)
        ensures
            final(self)@ == one_more(old(self)@),
            event@ == progress_of(one_more(old(self)@), current_item@),
    {
        self.deleted_items = self.deleted_items.saturating_add(1);
        DeleteProgress {
            item_name: self.item_name.clone(),
            percent: percent_of(self.deleted_items, self.total_items),
            current_item,
            total_items: self.total_items,
            deleted_items: self.deleted_items,
        }
    }

    /// Ends the walk with a failure.
    fn fail(&mut self, reason: String) -> (step: DeleteStep)
        ensures
            final(self)@ == ended(old(self)@),
            step.action@ == DeleteActionView::Failed(reason@),
            step.progress is None,
    {
        self.waiting = Waiting::Nothing;
        DeleteStep { action: DeleteAction::Failed(reason), progress: None }
    }

    /// Takes what the driver tells and says what to do next.
    pub fn advance(&mut self, event: DeleteEvent) -> (step: DeleteStep)
        ensures
            (final(self)@, step.action@, opt_progress(step.progress)) == delete_step(
                old(self)@,
                event@,
            ),
    {
        let mut waiting = Waiting::Nothing;
        std::mem::swap(&mut waiting, &mut self.waiting);
        let ghost s = old(self)@;
        proof {
            assert(waiting@ == s.waiting);
        }
        match (waiting, event) {
            (Waiting::Listing(path), DeleteEvent::Listed(Some(entries))) => {
                let ghost held = self.stack@;
                let frame = Frame { path, entries, next: 0 };
                let ghost opened = frame@;
                self.stack.push(frame);
                proof {
                    assert(frames_of(self.stack@) =~= frames_of(held).push(opened));
                    assert(proceed(self@) == proceed(
                        DeleteView { stack: s.stack.push(opened), ..s },
                    ));
                }
                let action = self.go_on();
                DeleteStep { action, progress: None }
            },
            (Waiting::Listing(path), DeleteEvent::Listed(None)) => {
                self.waiting = Waiting::SelfRemoval(path.clone());
                DeleteStep { action: DeleteAction::RemoveFile(path), progress: None }
            },
            (Waiting::EntryRemoval { name, full_path }, DeleteEvent::Removed(Ok(()))) => {
                proof {
                    assert(returned(one_more(self@)) == returned(one_more(s)));
                }
                let event = self.tick(name);
                let action = self.go_back();
                DeleteStep { action, progress: Some(event) }
            },
            (Waiting::EntryRemoval { name, full_path }, DeleteEvent::Removed(Err(_))) => {
                let mut reason: Vec<char> = Vec::new();
                push_str_chars(&mut reason, "Failed to delete file: ");
                push_str_chars(&mut reason, full_path.as_str());
                self.fail(string_of(&reason))
            },
            (Waiting::SelfRemoval(path), DeleteEvent::Removed(Ok(()))) => {
                proof {
                    assert(returned(one_more(self@)) == returned(one_more(s)));
                }
                let event = self.tick(last_segment(path.as_str()));
                let action = self.go_back();
                DeleteStep { action, progress: Some(event) }
            },
            (Waiting::SelfRemoval(path), DeleteEvent::Removed(Err(_))) => {
                let mut reason: Vec<char> = Vec::new();
                push_str_chars(&mut reason, "Failed to delete file: ");
                push_str_chars(&mut reason, path.as_str());
                self.fail(string_of(&reason))
            },
            (Waiting::DirectoryRemoval(path), DeleteEvent::Removed(Ok(()))) => {
                let ghost held = self.stack@;
                let _ = self.stack.pop();
                proof {
                    if held.len() > 0 {
                        assert(frames_of(self.stack@) =~= frames_of(held).drop_last());
                    }
                }
                let event = self.tick(last_segment(path.as_str()));
                let ghost closed = DeleteView {
                    stack: if s.stack.len() > 0 {
                        s.stack.drop_last()
                    } else {
                        s.stack
                    },
                    ..one_more(s)
                };
                proof {
                    assert(returned(self@) == returned(closed));
                }
                let action = self.go_back();
                DeleteStep { action, progress: Some(event) }
            },
            (Waiting::DirectoryRemoval(path), DeleteEvent::Removed(Err(e))) => {
                let mut reason: Vec<char> = Vec::new();
                push_str_chars(&mut reason, "Failed to remove directory ");
                push_str_chars(&mut reason, path.as_str());
                push_str_chars(&mut reason, ": ");
                push_str_chars(&mut reason, e.as_str());
                self.fail(string_of(&reason))
            },
            (Waiting::Nothing, _) => { DeleteStep { action: DeleteAction::Done, progress: None } },
            _ => self.fail(string_of(&chars_of("Unexpected reply"))),
        }
    }
}

/// The walk, its last step, and the progress events sent, after `events`
/// have been told in order, from the walk `s` whose last step was
/// `action`.
pub open spec fn delete_run(s: DeleteView, action: DeleteActionView, events: Seq<DeleteEventView>)
    -> (DeleteView, DeleteActionView, Seq<DeleteProgressView>)
    decreases events.len(),
{
    if events.len() == 0 {
        (s, action, Seq::empty())
    } else {
        let step = delete_step(s, events[0]);
        let rest = delete_run(step.0, step.1, events.drop_first());
        (
            rest.0,
            rest.1,
            match step.2 {
                Some(p) => seq![p] + rest.2,
                None => rest.2,
            },
        )
    }
}

/// What a server that holds the tree `n` tells while `n` is deleted and
/// every removal succeeds: the listing of `n`, what it tells while each
/// entry is deleted, and the removal of `n` itself.
pub open spec fn delete_script(n: TreeNode) -> Seq<DeleteEventView>
    decreases n, 0nat,
{
    match n.listing {
        None => seq![DeleteEventView::Listed(None), DeleteEventView::Removed(Ok(()))],
        Some(children) => seq![DeleteEventView::Listed(Some(items_of(children)))]
            + entries_script(children) + seq![DeleteEventView::Removed(Ok(()))],
    }
}

/// What the server tells while the entries `children` are deleted, one
/// after the other.
pub open spec fn entries_script(children: Seq<TreeNode>) -> Seq<DeleteEventView>
    decreases children, 0nat,
{
    if children.len() == 0 {
        Seq::empty()
    } else if children[0].item.is_directory {
        delete_script(children[0]) + entries_script(children.drop_first())
    } else {
        seq![DeleteEventView::Removed(Ok(()))] + entries_script(children.drop_first())
    }
}

/// Whether the events `events` count up one by one from `from`, each with
/// the total, the name and the percentage of the walk `s`.
pub open spec fn numbered(events: Seq<DeleteProgressView>, from: nat, s: DeleteView) -> bool {
    forall|k: int|
        0 <= k < events.len() ==> {
            let e = #[trigger] events[k];
            &&& e.deleted_items == from + k + 1
            &&& e.total_items == s.total_items
            &&& e.item_name == s.item_name
            &&& e.percent == percent_spec((from + k + 1) as nat, s.total_items as nat) as u8
        }
}

/// Events that count up, followed by events that count up from where the
/// first ended, count up.
proof fn lemma_numbered_concat(
    a: Seq<DeleteProgressView>,
    b: Seq<DeleteProgressView>,
    from: nat,
    s: DeleteView,
    t: DeleteView,
)
    requires
        numbered(a, from, s),
        numbered(b, from + a.len(), t),
        s.total_items == t.total_items,
        s.item_name == t.item_name,
    ensures
        numbered(a + b, from, s),
{
    assert forall|k: int| 0 <= k < (a + b).len() implies {
        let e = #[trigger] (a + b)[k];
        &&& e.deleted_items == from + k + 1
        &&& e.total_items == s.total_items
        &&& e.item_name == s.item_name
        &&& e.percent == percent_spec((from + k + 1) as nat, s.total_items as nat) as u8
    } by {
        if k < a.len() {
            assert((a + b)[k] == a[k]);
        } else {
            assert((a + b)[k] == b[k - a.len()]);
        }
    }
}

/// Telling two runs of events is telling the first and then the second.
proof fn lemma_delete_run_concat(
    s: DeleteView,
    action: DeleteActionView,
    a: Seq<DeleteEventView>,
    b: Seq<DeleteEventView>,
)
    ensures
        ({
            let first = delete_run(s, action, a);
            let second = delete_run(first.0, first.1, b);
            delete_run(s, action, a + b) == (second.0, second.1, first.2 + second.2)
        }),
    decreases a.len(),
{
    let first = delete_run(s, action, a);
    let second = delete_run(first.0, first.1, b);
    if a.len() == 0 {
        assert(a + b =~= b);
        assert(first.2 + second.2 =~= second.2);
    } else {
        let step = delete_step(s, a[0]);
        assert((a + b)[0] == a[0]);
        assert((a + b).drop_first() =~= a.drop_first() + b);
        lemma_delete_run_concat(step.0, step.1, a.drop_first(), b);
        let rest = delete_run(step.0, step.1, a.drop_first());
        match step.2 {
            Some(p) => {
                assert(seq![p] + (rest.2 + second.2) =~= (seq![p] + rest.2) + second.2);
            },
            None => {},
        }
    }
}

/// Telling one event is taking one step.
proof fn lemma_delete_run_one(s: DeleteView, action: DeleteActionView, event: DeleteEventView)
    ensures
        ({
            let step = delete_step(s, event);
            delete_run(s, action, seq![event]) == (
                step.0,
                step.1,
                match step.2 {
                    Some(p) => seq![p],
                    None => Seq::empty(),
                },
            )
        }),
{
    let one = seq![event];
    let step = delete_step(s, one[0]);
    assert(one.drop_first() =~= Seq::empty());
    let rest = delete_run(step.0, step.1, one.drop_first());
    assert(rest == (step.0, step.1, Seq::<DeleteProgressView>::empty()));
    match step.2 {
        Some(p) => {
            assert(seq![p] + rest.2 =~= seq![p]);
        },
        None => {},
    }
}

/// How the walk goes on does not depend on what it waited for.
proof fn lemma_waiting_forgotten(a: DeleteView, b: DeleteView)
    requires
        a.item_name == b.item_name,
        a.total_items == b.total_items,
        a.deleted_items == b.deleted_items,
        a.stack == b.stack,
    ensures
        proceed(a) == proceed(b),
        returned(a) == returned(b),
{
}

/// From a walk that waits for the listing of `n`, what the server tells
/// while `n` is deleted leads to the walk that has counted the items of
/// `n` and goes on where it was; one event is sent for each item, and the
/// events count up one by one.
proof fn lemma_delete_node(s: DeleteView, action: DeleteActionView, n: TreeNode)
    requires
        s.waiting is Listing,
        s.deleted_items + count_items(n) <= u64::MAX,
    ensures
        ({
            let r = delete_run(s, action, delete_script(n));
            let done = DeleteView {
                deleted_items: (s.deleted_items + count_items(n)) as u64,
                ..s
            };
            &&& (r.0, r.1) == returned(done)
            &&& r.2.len() == count_items(n)
            &&& numbered(r.2, s.deleted_items as nat, s)
        }),
    decreases n, 0nat,
{
    let path = s.waiting->Listing_0;
    match n.listing {
        None => {
            let first = seq![DeleteEventView::Listed(None)];
            let second = seq![DeleteEventView::Removed(Ok(()))];
            assert(delete_script(n) =~= first + second);
            lemma_delete_run_concat(s, action, first, second);
            lemma_delete_run_one(s, action, DeleteEventView::Listed(None));
            let s1 = DeleteView { waiting: WaitingView::SelfRemoval(path), ..s };
            lemma_delete_run_one(
                s1,
                DeleteActionView::RemoveFile(path),
                DeleteEventView::Removed(Ok(())),
            );
            let done = DeleteView { deleted_items: (s.deleted_items + 1) as u64, ..s };
            lemma_waiting_forgotten(one_more(s1), done);
            let r = delete_run(s, action, delete_script(n));
            assert(r.2 =~= seq![progress_of(one_more(s1), last_segment_spec(path))]);
        },
        Some(children) => {
            let items = items_of(children);
            let first = seq![DeleteEventView::Listed(Some(items))];
            let second = entries_script(children) + seq![DeleteEventView::Removed(Ok(()))];
            assert(delete_script(n) =~= first + second);
            lemma_delete_run_concat(s, action, first, second);
            lemma_delete_run_one(s, action, DeleteEventView::Listed(Some(items)));
            let opened = DeleteView {
                stack: s.stack.push(FrameView { path, entries: items, next: 0 }),
                ..s
            };
            assert(children.skip(0) =~= children);
            lemma_delete_entries(opened, children, 0);
            let closed = DeleteView {
                stack: opened.stack.drop_last(),
                deleted_items: (opened.deleted_items + children_items(children)
                    + 1) as u64,
                ..opened
            };
            assert(opened.stack.drop_last() =~= s.stack);
            let done = DeleteView {
                deleted_items: (s.deleted_items + count_items(n)) as u64,
                ..s
            };
            lemma_waiting_forgotten(closed, done);
            let r1 = delete_run(s, action, first);
            assert(r1.2 =~= Seq::<DeleteProgressView>::empty());
            let r2 = delete_run(r1.0, r1.1, second);
            assert(r1.2 + r2.2 =~= r2.2);
        },
    }
}

/// From a walk in which the directory on top has the entries `children`
/// and the first `i` of them are done, what the server tells while the
/// others are deleted and the directory is removed leads to the walk that
/// has counted them and the directory, has closed the directory, and goes
/// on where it was; one event is sent for each item, and the events count
/// up one by one.
proof fn lemma_delete_entries(s: DeleteView, children: Seq<TreeNode>, i: nat)
    requires
        s.stack.len() > 0,
        s.stack.last().entries == items_of(children),
        s.stack.last().next == i,
        i <= children.len(),
        s.deleted_items + children_items(children.skip(i as int)) + 1 <= u64::MAX,
    ensures
        ({
            let start = proceed(s);
            let r = delete_run(
                start.0,
                start.1,
                entries_script(children.skip(i as int)) + seq![DeleteEventView::Removed(Ok(()))],
            );
            let closed = DeleteView {
                stack: s.stack.drop_last(),
                deleted_items: (s.deleted_items + children_items(
                    children.skip(i as int),
                ) + 1) as u64,
                ..s
            };
            &&& (r.0, r.1) == returned(closed)
            &&& r.2.len() == children_items(children.skip(i as int)) + 1
            &&& numbered(r.2, s.deleted_items as nat, s)
        }),
    decreases children, children.len() - i,
{
    let start = proceed(s);
    let top = s.stack.last();
    let left = children.skip(i as int);
    let removal = seq![DeleteEventView::Removed(Ok(()))];
    let script = entries_script(left) + removal;
    if i == children.len() {
        assert(entries_script(left) =~= Seq::empty());
        assert(script =~= removal);
        lemma_delete_run_one(start.0, start.1, DeleteEventView::Removed(Ok(())));
        let closed = DeleteView { stack: s.stack.drop_last(), ..one_more(start.0) };
        let want = DeleteView {
            stack: s.stack.drop_last(),
            deleted_items: (s.deleted_items + 1) as u64,
            ..s
        };
        lemma_waiting_forgotten(closed, want);
    } else {
        let child = children[i as int];
        assert(left[0] == child);
        assert(left.drop_first() =~= children.skip(i + 1 as int));
        assert(items_of(children)[i as int] == child.item);
        assert(children_items(left) == entry_items(left[0])
            + children_items(left.drop_first()));
        assert(entry_items(child) == if child.item.is_directory {
            count_items(child)
        } else {
            1
        });
        let after = entries_script(children.skip(i + 1 as int)) + removal;
        let moved = FrameView { next: i + 1, ..top };
        if child.item.is_directory {
            let own = delete_script(child);
            assert(script =~= own + after);
            lemma_delete_run_concat(start.0, start.1, own, after);
            lemma_delete_node(start.0, start.1, child);
            let done = DeleteView {
                deleted_items: (s.deleted_items + count_items(child)) as u64,
                ..start.0
            };
            let next = DeleteView { stack: s.stack.drop_last().push(moved), ..done };
            assert(returned(done) == proceed(next));
            assert(next.stack.last() == moved);
            assert(next.stack.drop_last() =~= s.stack.drop_last());
            lemma_delete_entries(next, children, i + 1);
            let r1 = delete_run(start.0, start.1, own);
            let r2 = delete_run(r1.0, r1.1, after);
            lemma_numbered_concat(r1.2, r2.2, s.deleted_items as nat, s, next);
            let closed = DeleteView {
                stack: next.stack.drop_last(),
                deleted_items: (next.deleted_items + children_items(
                    children.skip(i + 1 as int),
                ) + 1) as u64,
                ..next
            };
            let want = DeleteView {
                stack: s.stack.drop_last(),
                deleted_items: (s.deleted_items + children_items(left) + 1) as u64,
                ..s
            };
            lemma_waiting_forgotten(closed, want);
        } else {
            assert(script =~= removal + after);
            lemma_delete_run_concat(start.0, start.1, removal, after);
            lemma_delete_run_one(start.0, start.1, DeleteEventView::Removed(Ok(())));
            let counted = one_more(start.0);
            let next = DeleteView { stack: s.stack.drop_last().push(moved), ..counted };
            assert(returned(counted) == proceed(next));
            assert(next.stack.last() == moved);
            assert(next.stack.drop_last() =~= s.stack.drop_last());
            lemma_delete_entries(next, children, i + 1);
            let r1 = delete_run(start.0, start.1, removal);
            let r2 = delete_run(r1.0, r1.1, after);
            lemma_numbered_concat(r1.2, r2.2, s.deleted_items as nat, s, next);
            let closed = DeleteView {
                stack: next.stack.drop_last(),
                deleted_items: (next.deleted_items + children_items(
                    children.skip(i + 1 as int),
                ) + 1) as u64,
                ..next
            };
            let want = DeleteView {
                stack: s.stack.drop_last(),
                deleted_items: (s.deleted_items + children_items(left) + 1) as u64,
                ..s
            };
            lemma_waiting_forgotten(closed, want);
        }
    }
}

/// One step sends at most one event. With an event the walk has counted
/// one more item than before, and the event tells of that number; without
/// one the number stays. The total and the name never change.
pub proof fn lemma_step_counts_up(s: DeleteView, event: DeleteEventView)
    requires
        s.deleted_items < u64::MAX,
    ensures
        ({
            let step = delete_step(s, event);
            &&& step.0.total_items == s.total_items
            &&& step.0.item_name == s.item_name
            &&& match step.2 {
                Some(p) => step.0.deleted_items == s.deleted_items + 1 && p.deleted_items
                    == s.deleted_items + 1 && p.total_items == s.total_items && p.item_name
                    == s.item_name && p.percent == percent_spec(
                    (s.deleted_items + 1) as nat,
                    s.total_items as nat,
                ) as u8,
                None => step.0.deleted_items == s.deleted_items,
            }
        }),
{
}

/// Whatever the server tells, and however the walk ends: the events that
/// it sends count the deleted items up one by one from where the walk
/// stood, and the walk holds the number of the last one.
pub proof fn lemma_events_count_up(
    s: DeleteView,
    action: DeleteActionView,
    events: Seq<DeleteEventView>,
)
    requires
        s.deleted_items + events.len() <= u64::MAX,
    ensures
        ({
            let r = delete_run(s, action, events);
            &&& r.2.len() <= events.len()
            &&& r.0.deleted_items == s.deleted_items + r.2.len()
            &&& r.0.total_items == s.total_items
            &&& r.0.item_name == s.item_name
            &&& numbered(r.2, s.deleted_items as nat, s)
        }),
    decreases events.len(),
{
    if events.len() > 0 {
        let step = delete_step(s, events[0]);
        lemma_step_counts_up(s, events[0]);
        lemma_events_count_up(step.0, step.1, events.drop_first());
        let rest = delete_run(step.0, step.1, events.drop_first());
        match step.2 {
            Some(p) => {
                let first = seq![p];
                assert(numbered(first, s.deleted_items as nat, s));
                lemma_numbered_concat(first, rest.2, s.deleted_items as nat, s, step.0);
            },
            None => {},
        }
    }
}

/// The things that the walk asked for before each of `events`, told in
/// order from the walk `s` that has just asked for `action`.
pub open spec fn delete_trace(s: DeleteView, action: DeleteActionView, events: Seq<DeleteEventView>)
    -> Seq<DeleteActionView>
    decreases events.len(),
{
    if events.len() == 0 {
        Seq::empty()
    } else {
        let step = delete_step(s, events[0]);
        seq![action] + delete_trace(step.0, step.1, events.drop_first())
    }
}

/// What deleting the tree `n` at `path` does, step by step: it lists
/// `path`; if that fails, it removes `path` as a file; if not, it deletes
/// each entry and then removes the directory `path`, empty by now.
pub open spec fn tree_removals(n: TreeNode, path: Seq<char>) -> Seq<DeleteActionView>
    decreases n, 0nat,
{
    match n.listing {
        None => seq![DeleteActionView::List(path), DeleteActionView::RemoveFile(path)],
        Some(children) => seq![DeleteActionView::List(path)] + entries_removals(children)
            + seq![DeleteActionView::RemoveDirectory(path)],
    }
}

/// What deleting the entries `children` does: in the order of the
/// listing, a directory is deleted as a tree of its own, and a file is
/// removed.
pub open spec fn entries_removals(children: Seq<TreeNode>) -> Seq<DeleteActionView>
    decreases children, 0nat,
{
    if children.len() == 0 {
        Seq::empty()
    } else if children[0].item.is_directory {
        tree_removals(children[0], children[0].item.full_path) + entries_removals(
            children.drop_first(),
        )
    } else {
        seq![DeleteActionView::RemoveFile(children[0].item.full_path)] + entries_removals(
            children.drop_first(),
        )
    }
}

/// What the walk asks for while two runs of events are told is what it
/// asks for during the first, and then during the second.
proof fn lemma_delete_trace_concat(
    s: DeleteView,
    action: DeleteActionView,
    a: Seq<DeleteEventView>,
    b: Seq<DeleteEventView>,
)
    ensures
        delete_trace(s, action, a + b) == delete_trace(s, action, a) + delete_trace(
            delete_run(s, action, a).0,
            delete_run(s, action, a).1,
            b,
        ),
    decreases a.len(),
{
    if a.len() == 0 {
        assert(a + b =~= b);
        assert(Seq::<DeleteActionView>::empty() + delete_trace(s, action, b) =~= delete_trace(
            s,
            action,
            b,
        ));
    } else {
        let step = delete_step(s, a[0]);
        assert((a + b)[0] == a[0]);
        assert((a + b).drop_first() =~= a.drop_first() + b);
        lemma_delete_trace_concat(step.0, step.1, a.drop_first(), b);
        let mid = delete_run(step.0, step.1, a.drop_first());
        assert(seq![action] + (delete_trace(step.0, step.1, a.drop_first()) + delete_trace(
            mid.0,
            mid.1,
            b,
        )) =~= (seq![action] + delete_trace(step.0, step.1, a.drop_first())) + delete_trace(
            mid.0,
            mid.1,
            b,
        ));
    }
}

/// What the walk asks for while one event is told is what it had asked
/// for.
proof fn lemma_delete_trace_one(s: DeleteView, action: DeleteActionView, event: DeleteEventView)
    ensures
        delete_trace(s, action, seq![event]) == seq![action],
{
    let one = seq![event];
    let step = delete_step(s, one[0]);
    assert(one.drop_first() =~= Seq::empty());
    assert(seq![action] + delete_trace(step.0, step.1, one.drop_first()) =~= seq![action]);
}

/// What the walk asks for while the tree `n` at `path` is deleted is what
/// deleting `n` does.
proof fn lemma_trace_tree(s: DeleteView, n: TreeNode, path: Seq<char>)
    requires
        s.waiting == WaitingView::Listing(path),
        s.deleted_items + count_items(n) <= u64::MAX,
    ensures
        delete_trace(s, DeleteActionView::List(path), delete_script(n)) == tree_removals(n, path),
    decreases n, 0nat,
{
    let list = DeleteActionView::List(path);
    match n.listing {
        None => {
            let first = seq![DeleteEventView::Listed(None)];
            let second = seq![DeleteEventView::Removed(Ok(()))];
            assert(delete_script(n) =~= first + second);
            lemma_delete_trace_concat(s, list, first, second);
            lemma_delete_trace_one(s, list, DeleteEventView::Listed(None));
            lemma_delete_run_one(s, list, DeleteEventView::Listed(None));
            let s1 = DeleteView { waiting: WaitingView::SelfRemoval(path), ..s };
            lemma_delete_trace_one(
                s1,
                DeleteActionView::RemoveFile(path),
                DeleteEventView::Removed(Ok(())),
            );
            assert(seq![list] + seq![DeleteActionView::RemoveFile(path)] =~= tree_removals(
                n,
                path,
            ));
        },
        Some(children) => {
            let items = items_of(children);
            let first = seq![DeleteEventView::Listed(Some(items))];
            let second = entries_script(children) + seq![DeleteEventView::Removed(Ok(()))];
            assert(delete_script(n) =~= first + second);
            lemma_delete_trace_concat(s, list, first, second);
            lemma_delete_trace_one(s, list, DeleteEventView::Listed(Some(items)));
            lemma_delete_run_one(s, list, DeleteEventView::Listed(Some(items)));
            let opened = DeleteView {
                stack: s.stack.push(FrameView { path, entries: items, next: 0 }),
                ..s
            };
            assert(children.skip(0) =~= children);
            lemma_trace_entries(opened, children, 0);
            assert(seq![list] + (entries_removals(children) + seq![
                DeleteActionView::RemoveDirectory(path),
            ]) =~= tree_removals(n, path));
        },
    }
}

/// What the walk asks for while the entries of the directory on top that
/// are left are deleted, and the directory is removed, is what deleting
/// those entries does, and then the removal of the directory.
proof fn lemma_trace_entries(s: DeleteView, children: Seq<TreeNode>, i: nat)
    requires
        s.stack.len() > 0,
        s.stack.last().entries == items_of(children),
        s.stack.last().next == i,
        i <= children.len(),
        s.deleted_items + children_items(children.skip(i as int)) + 1 <= u64::MAX,
    ensures
        ({
            let start = proceed(s);
            delete_trace(
                start.0,
                start.1,
                entries_script(children.skip(i as int)) + seq![DeleteEventView::Removed(Ok(()))],
            ) == entries_removals(children.skip(i as int)) + seq![
                DeleteActionView::RemoveDirectory(s.stack.last().path),
            ]
        }),
    decreases children, children.len() - i,
{
    let start = proceed(s);
    let top = s.stack.last();
    let left = children.skip(i as int);
    let removal = seq![DeleteEventView::Removed(Ok(()))];
    let close = seq![DeleteActionView::RemoveDirectory(top.path)];
    if i == children.len() {
        assert(entries_script(left) =~= Seq::empty());
        assert(entries_script(left) + removal =~= removal);
        lemma_delete_trace_one(start.0, start.1, DeleteEventView::Removed(Ok(())));
        assert(entries_removals(left) + close =~= close);
    } else {
        let child = children[i as int];
        let rest = children.skip(i + 1 as int);
        assert(left[0] == child);
        assert(left.drop_first() =~= rest);
        assert(items_of(children)[i as int] == child.item);
        assert(children_items(left) == entry_items(left[0]) + children_items(left.drop_first()));
        assert(entry_items(child) == if child.item.is_directory {
            count_items(child)
        } else {
            1
        });
        let after = entries_script(rest) + removal;
        let moved = FrameView { next: i + 1, ..top };
        if child.item.is_directory {
            let own = delete_script(child);
            assert(entries_script(left) + removal =~= own + after);
            lemma_delete_trace_concat(start.0, start.1, own, after);
            lemma_trace_tree(start.0, child, child.item.full_path);
            lemma_delete_node(start.0, start.1, child);
            let done = DeleteView {
                deleted_items: (s.deleted_items + count_items(child)) as u64,
                ..start.0
            };
            let next = DeleteView { stack: s.stack.drop_last().push(moved), ..done };
            assert(returned(done) == proceed(next));
            assert(next.stack.last() == moved);
            lemma_trace_entries(next, children, i + 1);
            assert(tree_removals(child, child.item.full_path) + (entries_removals(rest) + close)
                =~= entries_removals(left) + close);
        } else {
            assert(entries_script(left) + removal =~= removal + after);
            lemma_delete_trace_concat(start.0, start.1, removal, after);
            lemma_delete_trace_one(start.0, start.1, DeleteEventView::Removed(Ok(())));
            lemma_delete_run_one(start.0, start.1, DeleteEventView::Removed(Ok(())));
            let counted = one_more(start.0);
            let next = DeleteView { stack: s.stack.drop_last().push(moved), ..counted };
            assert(returned(counted) == proceed(next));
            assert(next.stack.last() == moved);
            lemma_trace_entries(next, children, i + 1);
            assert(seq![DeleteActionView::RemoveFile(child.item.full_path)] + (entries_removals(
                rest,
            ) + close) =~= entries_removals(left) + close);
        }
    }
}

/// Deleting the tree `n` at `path` on a server that holds it and lets
/// every removal succeed does what `tree_removals` says, in that order and
/// nothing else: each file goes before the directory that holds it.
pub proof fn lemma_delete_order(n: TreeNode, path: Seq<char>, item_name: Seq<char>)
    requires
        count_items(n) <= u64::MAX,
    ensures
        delete_trace(
            delete_start(path, item_name, count_items(n) as u64),
            DeleteActionView::List(path),
            delete_script(n),
        ) == tree_removals(n, path),
{
    lemma_trace_tree(delete_start(path, item_name, count_items(n) as u64), n, path);
}

/// Deleting the tree `n` on a server that holds it and lets every removal
/// succeed, with the number of its items as the total: the walk ends
/// well, it sends exactly as many progress events as the tree has items,
/// the events count the deleted items up one by one, and the last one
/// tells of the total and of `100` percent.
pub proof fn lemma_delete_walk(n: TreeNode, path: Seq<char>, item_name: Seq<char>)
    requires
        count_items(n) <= u64::MAX,
    ensures
        ({
            let total = count_items(n) as u64;
            let r = delete_run(
                delete_start(path, item_name, total),
                DeleteActionView::List(path),
                delete_script(n),
            );
            &&& r.1 == DeleteActionView::Done
            &&& r.0.waiting == WaitingView::Nothing
            &&& r.0.deleted_items == total
            &&& r.2.len() == count_items(n)
            &&& forall|k: int|
                0 <= k < r.2.len() ==> (#[trigger] r.2[k]).deleted_items == k + 1
                    && r.2[k].total_items == total
            &&& forall|j: int, k: int|
                0 <= j < k < r.2.len() ==> (#[trigger] r.2[j]).deleted_items < (
                #[trigger] r.2[k]).deleted_items
            &&& r.2.last().deleted_items == total
            &&& r.2.last().percent == 100
        }),
{
    let total = count_items(n) as u64;
    let s = delete_start(path, item_name, total);
    lemma_delete_node(s, DeleteActionView::List(path), n);
    lemma_count_positive(n);
    let r = delete_run(s, DeleteActionView::List(path), delete_script(n));
    assert(r.2[r.2.len() - 1].deleted_items == total);
}

} // verus!
