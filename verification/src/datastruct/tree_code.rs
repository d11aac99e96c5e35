//! The textual code of a tree.
//!
//! A tree is written level by level in fields separated by `;`. The first
//! field is the label of the root. Then, for each member in the order in which
//! the members were introduced, comes the number of its children followed by
//! their labels:
//!
//! ```text
//!  root 3 A B C 2 D E 2 F G 0 0 0 0 1 H 0
//! ```
//!
//! reads: `root` has the children `A`, `B` and `C`; `A` has `D` and `E`; `B`
//! has `F` and `G`; `C`, `D`, `E` and `F` have none; `G` has `H`.
//!
//! A count that is no number stands for no children. Where the code ends
//! early, the children that are missing are left out and the members that
//! still wait for a count stay without children. Fields that no member
//! waits for are ignored.
use crate::datastruct::strings::views;
use vstd::prelude::*;

verus! {

/// Separates the fields of a tree code.
pub const SEPARATOR: char = ';';

/// The fields of `code`: what stands before, between and behind the
/// separators. There is one field more than there are separators, and a field
/// may be empty.
pub open spec fn fields(code: Seq<char>) -> Seq<Seq<char>>
    decreases code.len(),
{
    if code.len() == 0 {
        seq![Seq::empty()]
    } else {
        let before = fields(code.drop_last());
        if code.last() == SEPARATOR {
            before.push(Seq::empty())
        } else {
            before.drop_last().push(before.last().push(code.last()))
        }
    }
}

/// There is at least one field, and no more than one for each character and
/// one more.
pub proof fn lemma_fields_len(code: Seq<char>)
    ensures
        1 <= fields(code).len() <= code.len() + 1,
    decreases code.len(),
{
    if code.len() > 0 {
        lemma_fields_len(code.drop_last());
    }
}

/// Splits `code` into its fields.
pub fn split_fields(code: &str) -> (tokens: Vec<String>)
    ensures
        views(tokens@) == fields(code@),
{
    broadcast use vstd::string::axiom_spec_iter;

    let mut tokens: Vec<String> = Vec::new();
    let mut field = String::new();
    for ch in it: code.chars()
        invariant
            it.seq() == code@,
            views(tokens@).push(field@) == fields(code@.take(it.index())),
    {
        proof {
            assert(code@.take(it.index() + 1).drop_last() =~= code@.take(it.index()));
            lemma_fields_len(code@.take(it.index()));
        }
        if ch == SEPARATOR {
            tokens.push(field);
            field = String::new();
        } else {
            field.push(ch);
        }
    }
    tokens.push(field);
    assert(code@.take(code@.len() as int) =~= code@);
    tokens
}

/// The value of the decimal digit `ch`.
pub open spec fn digit_value(ch: char) -> Option<nat> {
    if '0' <= ch <= '9' {
        Some((ch as nat - '0' as nat) as nat)
    } else {
        None
    }
}

/// The number that `digits` writes in decimal notation, the empty sequence
/// writing 0; `None` if a character is no digit.
pub open spec fn digits_value(digits: Seq<char>) -> Option<nat>
    decreases digits.len(),
{
    if digits.len() == 0 {
        Some(0)
    } else {
        match (digits_value(digits.drop_last()), digit_value(digits.last())) {
            (Some(value), Some(digit)) => Some(10 * value + digit),
            _ => None,
        }
    }
}

/// The count that `field` stands for: an optional `+`, then at least one
/// decimal digit and nothing else, with a value that fits in `usize`. Every
/// other field is no count.
pub open spec fn count_of(field: Seq<char>) -> Option<usize> {
    let digits = if field.len() > 0 && field[0] == '+' {
        field.drop_first()
    } else {
        field
    };
    match digits_value(digits) {
        Some(value) => if digits.len() > 0 && value <= usize::MAX {
            Some(value as usize)
        } else {
            None
        },
        None => None,
    }
}

/// More digits do not make a number smaller, and no digit mends a sequence
/// that is no number.
proof fn lemma_digits_value_grows(digits: Seq<char>, n: int)
    requires
        0 <= n <= digits.len(),
    ensures
        digits_value(digits.take(n)) is None ==> digits_value(digits) is None,
        digits_value(digits) matches Some(value) ==> digits_value(digits.take(n)).unwrap()
            <= value,
    decreases digits.len() - n,
{
    if n == digits.len() {
        assert(digits.take(n) =~= digits);
    } else {
        assert(digits.drop_last().take(n) =~= digits.take(n));
        lemma_digits_value_grows(digits.drop_last(), n);
    }
}

/// Reads `field` as a count.
pub fn parse_count(field: &str) -> (count: Option<usize>)
    ensures
        count == count_of(field@),
{
    broadcast use vstd::string::axiom_spec_iter;

    let mut value: usize = 0;
    let mut any_digit = false;
    let mut signed = false;
    let ghost mut seen: int = 0;
    let ghost digits = if field@.len() > 0 && field@[0] == '+' {
        field@.drop_first()
    } else {
        field@
    };
    let ghost skip: int = field@.len() - digits.len();
    for ch in it: field.chars()
        invariant
            it.seq() == field@,
            digits == if field@.len() > 0 && field@[0] == '+' {
                field@.drop_first()
            } else {
                field@
            },
            skip == field@.len() - digits.len(),
            signed == (skip == 1 && it.index() >= 1),
            it.index() >= 1 ==> seen == it.index() - skip,
            it.index() == 0 ==> seen == 0,
            any_digit == (seen > 0),
            digits_value(digits.take(seen)) == Some(value as nat),
    {
        if ch == '+' && !any_digit && !signed {
            signed = true;
        } else {
            proof {
                assert(digits.take(seen + 1).drop_last() =~= digits.take(seen));
                lemma_digits_value_grows(digits, seen + 1);
            }
            if ch >= '0' && ch <= '9' {
                let digit = (ch as u32 - '0' as u32) as usize;
                if value > (usize::MAX - digit) / 10 {
                    return None;
                }
                value = value * 10 + digit;
                any_digit = true;
                proof {
                    seen = seen + 1;
                }
            } else {
                return None;
            }
        }
    }
    assert(digits.take(seen) =~= digits);
    if !any_digit {
        None
    } else {
        Some(value)
    }
}

/// A member of a tree as its user sees it: its label, and its children by
/// their positions in the tree, first child first.
pub struct MemberView {
    pub data: Seq<char>,
    pub stem: Seq<int>,
}

/// A member without children.
pub open spec fn leaf(label: Seq<char>) -> MemberView {
    MemberView { data: label, stem: Seq::empty() }
}

/// Every child comes later in the tree than its parent. The root of such a
/// tree is its first member.
pub open spec fn ordered(members: Seq<MemberView>) -> bool {
    forall|i: int, k: int|
        0 <= i < members.len() && 0 <= k < members[i].stem.len() ==> i < #[trigger] members[i].stem[k]
            < members.len()
}

/// Number of children that the count in field `next` gives: the count, but
/// not more than there are fields behind it, and none if it is no count.
pub open spec fn children_at(tokens: Seq<Seq<char>>, next: int) -> int {
    let wanted = match count_of(tokens[next]) {
        Some(count) => count as int,
        None => 0,
    };
    let left = tokens.len() - (next + 1);
    if wanted <= left {
        wanted
    } else {
        left
    }
}

/// The tree that the rest of a code describes. `members` are the members
/// read so far, those from position `current` on still wait for their
/// count, and `next` is the first field that was not read.
///
/// The member at `current` takes the count in field `next` and so many of
/// the fields behind it as labels of its children, which join the tree
/// behind all the others. Reading ends when no member waits or no field is
/// left.
pub open spec fn decode_from(
    tokens: Seq<Seq<char>>,
    members: Seq<MemberView>,
    current: int,
    next: int,
) -> Seq<MemberView>
    decreases tokens.len() - next + members.len() - current,
{
    if 0 <= current < members.len() && 0 <= next < tokens.len() {
        let taken = children_at(tokens, next);
        let first = members.len() as int;
        let parent = MemberView {
            data: members[current].data,
            stem: Seq::new(taken as nat, |k: int| first + k),
        };
        let children = Seq::new(taken as nat, |k: int| leaf(tokens[next + 1 + k]));
        decode_from(
            tokens,
            members.update(current, parent) + children,
            current + 1,
            next + 1 + taken,
        )
    } else {
        members
    }
}

/// The tree that the fields `tokens` describe: the first field is the root,
/// the others are read as `decode_from` says.
pub open spec fn decode(tokens: Seq<Seq<char>>) -> Seq<MemberView> {
    decode_from(tokens, seq![leaf(tokens[0])], 0, 1)
}

/// Reading on keeps the members that were read and their labels, gives
/// children only to members that wait, and adds a member for a field at most.
proof fn lemma_decode_from_shape(
    tokens: Seq<Seq<char>>,
    members: Seq<MemberView>,
    current: int,
    next: int,
)
    requires
        ordered(members),
        0 <= current <= members.len() <= next <= tokens.len(),
        forall|i: int| current <= i < members.len() ==> (#[trigger] members[i]).stem.len() == 0,
    ensures
        ordered(decode_from(tokens, members, current, next)),
        members.len() <= decode_from(tokens, members, current, next).len() <= tokens.len(),
        forall|i: int|
            0 <= i < members.len() ==> (#[trigger] decode_from(tokens, members, current, next)[i]).data
                == members[i].data,
        forall|i: int|
            0 <= i < current ==> #[trigger] decode_from(tokens, members, current, next)[i]
                == members[i],
    decreases tokens.len() - next + members.len() - current,
{
    if 0 <= current < members.len() && 0 <= next < tokens.len() {
        let taken = children_at(tokens, next);
        let first = members.len() as int;
        let parent = MemberView {
            data: members[current].data,
            stem: Seq::new(taken as nat, |k: int| first + k),
        };
        let children = Seq::new(taken as nat, |k: int| leaf(tokens[next + 1 + k]));
        let grown = members.update(current, parent) + children;
        lemma_decode_from_shape(tokens, grown, current + 1, next + 1 + taken);
    }
}

/// Whatever the fields hold, they describe a tree: its root is labelled
/// with the first field, every child comes later than its parent, and there
/// are no more members than fields.
pub proof fn lemma_decode_shape(tokens: Seq<Seq<char>>)
    requires
        tokens.len() >= 1,
    ensures
        ordered(decode(tokens)),
        1 <= decode(tokens).len() <= tokens.len(),
        decode(tokens)[0].data == tokens[0],
{
    lemma_decode_from_shape(tokens, seq![leaf(tokens[0])], 0, 1);
}

} // verus!
