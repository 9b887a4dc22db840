//! The binary-trees benchmark: full trees and their node counts.

use vstd::prelude::*;

verus! {

#[derive(Debug)]
pub struct Node {
    pub left: Option<Box<Node>>,
    pub right: Option<Box<Node>>,
}

/// The full tree of a depth.
pub open spec fn full(depth: nat) -> Node
    decreases depth,
{
    if depth == 0 {
        Node { left: None, right: None }
    } else {
        let half = full((depth - 1) as nat);
        Node { left: Some(Box::new(half)), right: Some(Box::new(half)) }
    }
}

/// The number of nodes.
pub open spec fn nodes(n: Node) -> nat
    decreases n,
{
    1 + (match n.left {
        Some(l) => nodes(*l),
        None => 0,
    }) + (match n.right {
        Some(r) => nodes(*r),
        None => 0,
    })
}

/// Two to the power.
pub open spec fn power(n: nat) -> nat
    decreases n,
{
    if n == 0 {
        1
    } else {
        2 * power((n - 1) as nat)
    }
}

/// A full tree of depth `d` has one node less than two to the power `d + 1`.
pub proof fn law_full_tree_nodes(depth: nat)
    ensures
        nodes(full(depth)) + 1 == power(depth + 1),
    decreases depth,
{
    if depth > 0 {
        law_full_tree_nodes((depth - 1) as nat);
    } else {
        assert(power(0) == 1);
    }
}

/// Builds the full tree of a depth.
pub fn make(depth: i32) -> (r: Box<Node>)
    requires
        depth >= 0,
    ensures
        *r == full(depth as nat),
    decreases depth,
{
    if depth == 0 {
        Box::new(Node { left: None, right: None })
    } else {
        let left = make(depth - 1);
        let right = make(depth - 1);
        Box::new(Node { left: Some(left), right: Some(right) })
    }
}

/// Counts the nodes of a tree.
pub fn check(n: &Node) -> (r: i32)
    requires
        nodes(*n) <= i32::MAX,
    ensures
        r == nodes(*n),
    decreases n,
{
    let mut total: i32 = 1;
    if let Some(l) = &n.left {
        total = total + check(l);
    }
    if let Some(r) = &n.right {
        total = total + check(r);
    }
    total
}

} // verus!
