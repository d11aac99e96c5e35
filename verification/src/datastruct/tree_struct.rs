//! A minimal tree written `Tree<T>`.
//!
//! The members of a tree live in one list, the root first, and every member
//! keeps the positions of its children in a [`Vector`]. A tree of strings is
//! built from its textual code, which `tree_code` describes.
use crate::datastruct::strings::{str_eq, views};
use crate::datastruct::tree_code::{
    children_at, decode, decode_from, fields, leaf, lemma_fields_len, ordered, parse_count,
    split_fields, MemberView,
};
use crate::datastruct::tree_text::{
    child_labels, connector, debug_below, debug_lines, debug_text, display_text, filler, joined,
    lines, lines_below, BLANK, CORNER, EDGE, LINE, NEWLINE,
};
use crate::datastruct::vec_model::VectorView;
use crate::datastruct::vec_struct::Vector;
use vstd::prelude::*;
use vstd::string::StringExecFns;

verus! {

struct Member<T> {
    data: T,
    /// Positions of the children, first child first.
    stem: Vector<usize>,
}

impl<T> Member<T> {
    /// A member without children.
    fn new(element: T) -> (member: Self)
        ensures
            member.data == element,
            member.stem.wf(),
            member.stem@ == VectorView::<usize>::empty(),
    {
        return Self { data: element, stem: Vector::new() };
    }
}

pub struct Tree<T> {
    members: Vec<Member<T>>,
    /// Position of the root; `None` in a tree without members.
    root: Option<usize>,
}

/// The largest number of members that a tree holds.
pub open spec fn max_members() -> int {
    usize::MAX / 2 - 1
}

/// How the user sees one member.
spec fn member_view(member: Member<String>) -> MemberView {
    MemberView { data: member.data@, stem: member.stem@.items.map_values(|child: usize| child as int) }
}

/// How the user sees a list of members.
spec fn member_views(members: Seq<Member<String>>) -> Seq<MemberView> {
    members.map_values(|member: Member<String>| member_view(member))
}

/// The child lists are well-formed vectors.
spec fn stems_wf(members: Seq<Member<String>>) -> bool {
    forall|i: int| 0 <= i < members.len() ==> (#[trigger] members[i]).stem.wf()
}

impl View for Tree<String> {
    type V = Seq<MemberView>;

    /// The members in the order of their positions.
    closed spec fn view(&self) -> Seq<MemberView> {
        member_views(self.members@)
    }
}

impl Tree<String> {
    /// The invariant of the representation: the root is recorded if and only
    /// if there are members, and is the first of them; every child comes
    /// later than its parent.
    pub closed spec fn wf(&self) -> bool {
        &&& self.members.len() <= max_members()
        &&& self.root == if self.members.len() == 0 {
            None
        } else {
            Some(0usize)
        }
        &&& stems_wf(self.members@)
        &&& ordered(self@)
    }

    /// Position of the root.
    pub closed spec fn root_index(&self) -> Option<usize> {
        self.root
    }

    /// What the invariant says of the view.
    pub proof fn lemma_wf(&self)
        requires
            self.wf(),
        ensures
            ordered(self@),
            self@.len() <= max_members(),
            self.root_index() == if self@.len() == 0 {
                None
            } else {
                Some(0usize)
            },
    {
    }

    /// A tree without members.
    pub fn new() -> (tree: Self)
        ensures
            tree.wf(),
            tree@ == Seq::<MemberView>::empty(),
            tree.root_index() is None,
    {
        return Self { members: Vec::new(), root: None };
    }

    /// Replaces the tree by the one that `tree_code` describes.
    ///
    /// ``` text
    ///  ┍━━━━┑ ┍━━━━━┑
    ///  root 3 A B C 2 D E 2 F G 0 0 0 0 1 H 0
    ///           ┕━┿━━━━━━━┙     │
    ///             ┕━━━━━━━━━━━━━┙
    /// ```
    ///
    /// The members are made in the order in which the code names them, so
    /// the root is the first. The code must have fewer characters than a tree
    /// can have members, which is more than memory holds.
    pub fn init_tree(&mut self, tree_code: &str)
        requires
            tree_code@.len() < max_members(),
        ensures
            final(self).wf(),
            final(self)@ == decode(fields(tree_code@)),
            final(self).root_index() == Some(0usize),
    {
        broadcast use vstd::layout::layout_of_primitives;

        let tokens = split_fields(tree_code);
        proof {
            lemma_fields_len(tree_code@);
        }
        let ghost labels = views(tokens@);
        let mut members: Vec<Member<String>> = Vec::new();
        let mut member_queue: Vector<usize> = Vector::new();
        members.push(Member::new(tokens[0].clone()));
        member_queue.push_back(0);
        let mut next: usize = 1;
        let ghost mut current: int = 0;
        proof {
            assert(member_view(members@[0]).stem =~= Seq::<int>::empty());
            assert(member_views(members@) =~= seq![leaf(labels[0])]);
        }
        while member_queue.len() > 0
            invariant
                labels == views(tokens@),
                1 <= next <= tokens.len() <= max_members(),
                1 <= members.len() <= next,
                0 <= current <= members.len(),
                member_queue.wf(),
                member_queue@.items == Seq::new(
                    (members.len() - current) as nat,
                    |k: int| (current + k) as usize,
                ),
                stems_wf(members@),
                ordered(member_views(members@)),
                forall|i: int|
                    current <= i < members.len() ==> (#[trigger] members@[i]).stem@
                        == VectorView::<usize>::empty(),
                decode_from(labels, member_views(members@), current, next as int) == decode(
                    labels,
                ),
            decreases tokens.len() - next + members.len() - current,
        {
            if let Some(candidate) = member_queue.pop_front() {
                if next < tokens.len() {
                    let count = parse_count(tokens[next].as_str());
                    let ghost start = members@;
                    let ghost first = members.len() as int;
                    let ghost taken = children_at(labels, next as int);
                    let ghost from = next as int + 1;
                    let ghost wanted: int = match count {
                        Some(n) => n as int,
                        None => 0,
                    };
                    next += 1;
                    if let Some(mut stem_size) = count {
                        while stem_size > 0 && next < tokens.len()
                            invariant
                                labels == views(tokens@),
                                tokens.len() <= max_members(),
                                candidate == current,
                                0 <= current < first <= members.len(),
                                first == start.len(),
                                from <= next <= tokens.len(),
                                members.len() - first == next - from,
                                members.len() <= next,
                                stem_size + (next - from) == wanted,
                                member_queue.wf(),
                                member_queue@.items == Seq::new(
                                    (members.len() - current - 1) as nat,
                                    |k: int| (current + 1 + k) as usize,
                                ),
                                stems_wf(members@),
                                forall|i: int|
                                    0 <= i < first && i != current ==> #[trigger] members@[i]
                                        == start[i],
                                members@[current].data == start[current].data,
                                members@[current].stem@.items == Seq::new(
                                    (members.len() - first) as nat,
                                    |k: int| (first + k) as usize,
                                ),
                                forall|i: int|
                                    first <= i < members.len() ==> (#[trigger] members@[i]).stem@
                                        == VectorView::<usize>::empty() && members@[i].data@
                                        == labels[from + (i - first)],
                            decreases stem_size,
                        {
                            let node = members.len();
                            members.push(Member::new(tokens[next].clone()));
                            members[candidate].stem.push_back(node);
                            member_queue.push_back(node);
                            next += 1;
                            stem_size -= 1;
                        }
                    }
                    proof {
                        let parent = MemberView {
                            data: member_views(start)[current].data,
                            stem: Seq::new(taken as nat, |k: int| first + k),
                        };
                        let children = Seq::new(taken as nat, |k: int| leaf(labels[from + k]));
                        assert(member_view(members@[current]).stem =~= parent.stem);
                        assert(member_views(members@) =~= member_views(start).update(
                            current,
                            parent,
                        ) + children) by {
                            assert forall|i: int| first <= i < members.len() implies member_view(
                                members@[i],
                            ) == leaf(labels[from + (i - first)]) by {
                                assert(member_view(members@[i]).stem =~= Seq::<int>::empty());
                            }
                        }
                    }
                }
                proof {
                    current = current + 1;
                }
            }
        }
        self.members = members;
        self.root = Some(0);
    }

    /// Appends the plain rendering of the member at `root` and of all below
    /// it to `out`.
    ///
    /// `states` holds the strokes of the line to write: the steps by which
    /// the member is indented, and last the stroke that leads to it. On
    /// return that last stroke is replaced by the step that belongs under it.
    fn tree_display(&self, root: usize, states: &mut Vector<&'static str>, out: &mut String)
        requires
            self.wf(),
            root < self@.len(),
            old(states).wf(),
            1 <= old(states).len() <= root + 1,
            old(states)@.items.last()@ == CORNER@ || old(states)@.items.last()@ == EDGE@,
        ensures
            final(states).wf(),
            final(states)@.items.len() == old(states)@.items.len(),
            final(states)@.items.drop_last() == old(states)@.items.drop_last(),
            final(states)@.items.last()@ == filler(old(states)@.items.last()@ == CORNER@),
            final(out)@ == old(out)@ + lines(
                self@,
                root as int,
                joined(old(states)@.items.drop_last()),
                old(states)@.items.last()@ == CORNER@,
            ),
        decreases self@.len() - root,
    {
        broadcast use vstd::layout::group_layout_axioms;

        proof {
            reveal_strlit("╠═");
            reveal_strlit("╚═");
        }
        let node = &self.members[root];
        let ghost last = old(states)@.items.last()@ == CORNER@;
        let ghost prefix = joined(old(states)@.items.drop_last());
        let mut i: usize = 0;
        while i < states.len()
            invariant
                states.wf(),
                i <= states.len(),
                out@ == old(out)@ + joined(states@.items.take(i as int)),
            decreases states.len() - i,
        {
            out.append(states[i]);
            assert(states@.items.take(i as int + 1).drop_last() =~= states@.items.take(i as int));
            i += 1;
        }
        assert(states@.items.take(i as int) =~= states@.items);
        out.append(node.data.as_str());
        out.append(NEWLINE);
        if str_eq(states[states.len() - 1], CORNER) {
            states.pop_back();
            states.push_back(BLANK);
        } else {
            states.pop_back();
            states.push_back(LINE);
        }
        let ghost below = states@.items;
        let ghost indent = prefix + filler(last);
        let ghost header = out@;
        assert(below.drop_last() =~= old(states)@.items.drop_last());
        let count = node.stem.len();
        let mut k: usize = 0;
        while k < count
            invariant
                self.wf(),
                root < self@.len(),
                node == self.members@[root as int],
                count == node.stem.len(),
                k <= count,
                states.wf(),
                states@.items == below,
                below.len() <= root + 1,
                joined(below) == indent,
                out@ == header + lines_below(self@, root as int, indent, k as int),
            decreases count - k,
        {
            if k == count - 1 {
                states.push_back(CORNER);
            } else {
                states.push_back(EDGE);
            }
            let child = node.stem[k];
            proof {
                reveal_strlit("╠═");
                reveal_strlit("╚═");
                assert(EDGE@[0] != CORNER@[0]);
                assert(self@[root as int].stem[k as int] == child);
                assert(states@.items.drop_last() =~= below);
            }
            self.tree_display(child, states, out);
            states.pop_back();
            k += 1;
        }
    }

    /// Appends the debug rendering of the member at `root` and of all below
    /// it to `out`.
    fn tree_debug(&self, root: usize, out: &mut String)
        requires
            self.wf(),
            root < self@.len(),
        ensures
            final(out)@ == old(out)@ + debug_lines(self@, root as int),
        decreases self@.len() - root,
    {
        let node = &self.members[root];
        out.append(node.data.as_str());
        out.append(":");
        let ghost named = out@;
        let count = node.stem.len();
        let mut i: usize = 0;
        while i < count
            invariant
                self.wf(),
                root < self@.len(),
                node == self.members@[root as int],
                count == node.stem.len(),
                i <= count,
                out@ == named + child_labels(self@, root as int, i as int),
            decreases count - i,
        {
            let child = node.stem[i];
            assert(self@[root as int].stem[i as int] == child);
            out.append(self.members[child].data.as_str());
            out.append(",");
            i += 1;
        }
        out.append(NEWLINE);
        let ghost header = out@;
        let mut k: usize = 0;
        while k < count
            invariant
                self.wf(),
                root < self@.len(),
                node == self.members@[root as int],
                count == node.stem.len(),
                k <= count,
                out@ == header + debug_below(self@, root as int, k as int),
            decreases count - k,
        {
            let child = node.stem[k];
            assert(self@[root as int].stem[k as int] == child);
            self.tree_debug(child, out);
            k += 1;
        }
    }

    /// The plain rendering of the tree.
    pub fn to_text(&self) -> (out: String)
        requires
            self.wf(),
        ensures
            out@ == display_text(self@),
    {
        broadcast use vstd::layout::group_layout_axioms;

        let mut out = String::new();
        let mut states: Vector<&'static str> = Vector::new();
        states.push_back(CORNER);
        if let Some(root) = self.root {
            self.tree_display(root, &mut states, &mut out);
        }
        out
    }

    /// The debug rendering of the tree.
    pub fn to_debug_text(&self) -> (out: String)
        requires
            self.wf(),
        ensures
            out@ == debug_text(self@),
    {
        let mut out = String::new();
        match self.root {
            Some(root) => {
                self.tree_debug(root, &mut out);
            },
            None => {
                out.append("--");
            },
        }
        out
    }
}

} // verus!
