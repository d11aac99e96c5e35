//! Text renderings of a tree.
//!
//! The plain rendering draws the tree with one member on each line, the
//! children of a member below it and indented by one step:
//!
//! ```text
//! ╚═Plants
//!   ╠═no seed
//!   ║ ╠═algae
//!   ║ ╚═Mosses
//!   ╚═seed
//! ```
//!
//! The debug rendering has a line for each member too, which lists the labels
//! of its children.
use crate::datastruct::tree_code::MemberView;
use vstd::prelude::*;

verus! {

/// Leads to a member that has a sibling below it.
pub const EDGE: &'static str = "╠═";

/// Passes by the members below one that has a sibling below it.
pub const LINE: &'static str = "║ ";

/// Leads to the last member among its siblings.
pub const CORNER: &'static str = "╚═";

/// Stands below the last member among its siblings.
pub const BLANK: &'static str = "  ";

/// Ends the line of a member.
pub const NEWLINE: &'static str = "\n";

/// The stroke that leads to a member.
pub open spec fn connector(last: bool) -> Seq<char> {
    if last {
        CORNER@
    } else {
        EDGE@
    }
}

/// The step by which the members below a member are indented.
pub open spec fn filler(last: bool) -> Seq<char> {
    if last {
        BLANK@
    } else {
        LINE@
    }
}

/// The line of the member at `position`, indented by `prefix`, and below it
/// the lines of all its descendants. `last` says that the member has no
/// sibling below it.
pub open spec fn lines(members: Seq<MemberView>, position: int, prefix: Seq<char>, last: bool) -> Seq<
    char,
>
    decreases members.len() - position, 1int, 0int,
{
    if 0 <= position < members.len() {
        prefix + connector(last) + members[position].data + NEWLINE@ + lines_below(
            members,
            position,
            prefix + filler(last),
            members[position].stem.len() as int,
        )
    } else {
        Seq::empty()
    }
}

/// The lines of the first `n` children of the member at `position` and of
/// their descendants, child by child.
pub open spec fn lines_below(members: Seq<MemberView>, position: int, prefix: Seq<char>, n: int) -> Seq<
    char,
>
    decreases members.len() - position, 0int, n,
{
    if 0 <= position < members.len() && 0 < n <= members[position].stem.len() {
        let child = members[position].stem[n - 1];
        lines_below(members, position, prefix, n - 1) + if position < child < members.len() {
            lines(members, child, prefix, n == members[position].stem.len())
        } else {
            Seq::empty()
        }
    } else {
        Seq::empty()
    }
}

/// The plain rendering of a tree: nothing for a tree without members, else
/// the lines of the root and of all below it.
pub open spec fn display_text(members: Seq<MemberView>) -> Seq<char> {
    lines(members, 0, Seq::empty(), true)
}

/// The labels of the first `n` children of the member at `position`, each
/// followed by a comma.
pub open spec fn child_labels(members: Seq<MemberView>, position: int, n: int) -> Seq<char>
    decreases n,
{
    if 0 < n <= members[position].stem.len() {
        child_labels(members, position, n - 1) + members[members[position].stem[n - 1]].data
            + ","@
    } else {
        Seq::empty()
    }
}

/// The debug line of the member at `position`, which is its label, a colon
/// and the labels of its children, and then the debug lines of all its
/// descendants.
pub open spec fn debug_lines(members: Seq<MemberView>, position: int) -> Seq<char>
    decreases members.len() - position, 1int, 0int,
{
    if 0 <= position < members.len() {
        members[position].data + ":"@ + child_labels(
            members,
            position,
            members[position].stem.len() as int,
        ) + NEWLINE@ + debug_below(members, position, members[position].stem.len() as int)
    } else {
        Seq::empty()
    }
}

/// The debug lines of the first `n` children of the member at `position`
/// and of their descendants, child by child.
pub open spec fn debug_below(members: Seq<MemberView>, position: int, n: int) -> Seq<char>
    decreases members.len() - position, 0int, n,
{
    if 0 <= position < members.len() && 0 < n <= members[position].stem.len() {
        let child = members[position].stem[n - 1];
        debug_below(members, position, n - 1) + if position < child < members.len() {
            debug_lines(members, child)
        } else {
            Seq::empty()
        }
    } else {
        Seq::empty()
    }
}

/// The debug rendering of a tree: two dashes for a tree without members,
/// else the debug lines of the root and of all below it.
pub open spec fn debug_text(members: Seq<MemberView>) -> Seq<char> {
    if members.len() == 0 {
        "--"@
    } else {
        debug_lines(members, 0)
    }
}

/// The texts of `parts`, one behind the other.
pub open spec fn joined(parts: Seq<&'static str>) -> Seq<char>
    decreases parts.len(),
{
    if parts.len() == 0 {
        Seq::empty()
    } else {
        joined(parts.drop_last()) + parts.last()@
    }
}

} // verus!
