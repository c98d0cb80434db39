//! A tree of files as a server, or the local disk, would show it: the
//! model against which the walks of the engine are stated.

use crate::models::FileItemView;
use vstd::prelude::*;

verus! {

/// One entry of a tree: what the listing of its parent shows of it, and
/// what a listing of the entry itself gives. `listing` is `None` where the
/// entry cannot be listed, as a file cannot.
pub struct TreeNode {
    pub item: FileItemView,
    pub listing: Option<Seq<TreeNode>>,
}

/// What a listing shows of some entries.
pub open spec fn items_of(children: Seq<TreeNode>) -> Seq<FileItemView> {
    children.map_values(|c: TreeNode| c.item)
}

/// Number of items in the tree below and with `n`, when `n` is walked as a
/// directory: one for `n` itself, and for each entry of its listing one if
/// it is shown as a file, or the number of items of its own tree if it is
/// shown as a directory. An entry that cannot be listed counts as one.
pub open spec fn count_items(n: TreeNode) -> nat
    decreases n, 0nat,
{
    match n.listing {
        None => 1,
        Some(children) => 1 + children_items(children),
    }
}

/// Number of items that the entries `children` stand for, together.
pub open spec fn children_items(children: Seq<TreeNode>) -> nat
    decreases children, 0nat,
{
    if children.len() == 0 {
        0
    } else {
        entry_items(children[0]) + children_items(children.drop_first())
    }
}

/// Number of items that one entry of a listing stands for.
pub open spec fn entry_items(child: TreeNode) -> nat
    decreases child, 1nat,
{
    if child.item.is_directory {
        count_items(child)
    } else {
        1
    }
}

/// Every tree holds at least one item.
pub proof fn lemma_count_positive(n: TreeNode)
    ensures
        count_items(n) >= 1,
        entry_items(n) >= 1,
{
}

/// The count of a tree is one more than the counts of the entries of its
/// listing, each taken by its index.
pub proof fn lemma_count_is_sum(n: TreeNode)
    requires
        n.listing is Some,
    ensures
        count_items(n) == 1 + sum_upto(n.listing.unwrap(), n.listing.unwrap().len()),
{
    lemma_children_items_is_sum(n.listing.unwrap());
}

/// The sum of the counts of the first `k` entries of `children`.
pub open spec fn sum_upto(children: Seq<TreeNode>, k: nat) -> nat
    decreases k,
{
    if k == 0 || k > children.len() {
        0
    } else {
        sum_upto(children, (k - 1) as nat) + entry_items(children[k - 1])
    }
}

/// Adding up from the front gives what adding up by index gives.
pub proof fn lemma_children_items_is_sum(children: Seq<TreeNode>)
    ensures
        children_items(children) == sum_upto(children, children.len()),
    decreases children.len(),
{
    if children.len() > 0 {
        let rest = children.drop_first();
        lemma_children_items_is_sum(rest);
        lemma_sum_shift(children, rest.len());
    }
}

/// The first `k + 1` entries count as the first entry and the `k` entries
/// after it.
proof fn lemma_sum_shift(children: Seq<TreeNode>, k: nat)
    requires
        children.len() > 0,
        k < children.len(),
    ensures
        sum_upto(children, k + 1) == entry_items(children[0]) + sum_upto(
            children.drop_first(),
            k,
        ),
    decreases k,
{
    if k > 0 {
        lemma_sum_shift(children, (k - 1) as nat);
        assert(children.drop_first()[k - 1] == children[k as int]);
    } else {
        assert(sum_upto(children, 0) == 0);
    }
}

} // verus!
