//! Text renderings of a `Vector<T>`, for tests and tools.
//!
//! The plain rendering shows the block slot by slot, the live elements
//! first and in logical order, each in a cell, and a placeholder cell for
//! every slot that is left:
//!
//! ```text
//! ⎩A⎭⎩B⎭⎩C⎭⎩▅⎭
//! ```
//!
//! The debug rendering puts the length and the capacity in front of the
//! cells. A vector that owns no block is rendered as a lone placeholder.
//!
//! How an element is turned into text is up to its type. The layout around
//! the element texts is fixed here: see [`block_text`] and [`debug_header`].
use crate::datastruct::strings::views;
use crate::datastruct::vec_struct::Vector;
use vstd::prelude::*;
use vstd::string::to_string_from_display_ensures;
use vstd::string::StrSliceExecFns;
use vstd::string::StringExecFns;

verus! {

/// Opens a cell.
pub const LEFT: &'static str = "⎩";

/// Stands for a slot without an element.
pub const PHI: &'static str = "▅";

/// Closes a cell.
pub const RIGHT: &'static str = "⎭";

/// The decimal digits in order of their value.
pub const DIGITS: &'static str = "0123456789";

/// One cell: the text between the two brackets.
pub open spec fn cell(text: Seq<char>) -> Seq<char> {
    LEFT@ + text + RIGHT@
}

/// A cell for each text, first to last.
pub open spec fn cells(texts: Seq<Seq<char>>) -> Seq<char>
    decreases texts.len(),
{
    if texts.len() == 0 {
        Seq::empty()
    } else {
        cells(texts.drop_last()) + cell(texts.last())
    }
}

/// `count` placeholder cells.
pub open spec fn placeholders(count: nat) -> Seq<char>
    decreases count,
{
    if count == 0 {
        Seq::empty()
    } else {
        placeholders((count - 1) as nat) + cell(PHI@)
    }
}

/// The rendering of a block of `capacity` slots whose live elements have the
/// texts `texts`: their cells, then a placeholder for each remaining slot.
pub open spec fn block_text(texts: Seq<Seq<char>>, capacity: nat) -> Seq<char> {
    cells(texts) + placeholders((capacity - texts.len()) as nat)
}

/// The digit of value `d`.
pub open spec fn digit(d: nat) -> char {
    DIGITS@[d as int]
}

/// `n` in decimal notation, without sign and without leading zeros.
pub open spec fn decimal(n: nat) -> Seq<char>
    decreases n,
{
    if n < 10 {
        seq![digit(n)]
    } else {
        decimal(n / 10).push(digit(n % 10))
    }
}

/// What the debug rendering puts in front of the cells.
pub open spec fn debug_header(length: nat, capacity: nat) -> Seq<char> {
    "Length = "@ + decimal(length) + " Capacity = "@ + decimal(capacity) + " -> "@
}

/// `texts` holds, for each element of `items`, a text that `Display` may
/// give for it.
pub open spec fn displayed<T: core::fmt::Display>(items: Seq<T>, texts: Seq<String>) -> bool {
    &&& texts.len() == items.len()
    &&& forall|i: int|
        0 <= i < items.len() ==> to_string_from_display_ensures::<T>(&items[i], #[trigger] texts[i])
}

/// `n` in decimal notation.
pub fn decimal_text(n: usize) -> (text: String)
    ensures
        text@ == decimal(n as nat),
    decreases n,
{
    proof {
        reveal_strlit("0123456789");
    }
    if n < 10 {
        String::from_str(DIGITS.substring_char(n, n + 1))
    } else {
        let mut text = decimal_text(n / 10);
        let last = n % 10;
        text.append(DIGITS.substring_char(last, last + 1));
        text
    }
}

/// Appends the rendering of a block of `capacity` slots to `out`: a cell for
/// each of `texts`, then a placeholder for each remaining slot.
pub fn render_cells(texts: &Vec<String>, capacity: usize, out: &mut String)
    requires
        texts.len() <= capacity,
    ensures
        final(out)@ == old(out)@ + block_text(views(texts@), capacity as nat),
{
    let mut total_offset = capacity;
    let mut index: usize = 0;
    while index < texts.len()
        invariant
            index <= texts.len() <= capacity,
            total_offset == capacity - index,
            out@ == old(out)@ + cells(views(texts@).take(index as int)),
        decreases texts.len() - index,
    {
        out.append(LEFT);
        out.append(texts[index].as_str());
        out.append(RIGHT);
        assert(views(texts@).take(index as int + 1).drop_last() =~= views(texts@).take(
            index as int,
        ));
        index += 1;
        total_offset -= 1;
    }
    assert(views(texts@).take(index as int) =~= views(texts@));
    let ghost shown = out@;
    let ghost remaining = total_offset;
    while total_offset > 0
        invariant
            total_offset <= remaining,
            out@ == shown + placeholders((remaining - total_offset) as nat),
        decreases total_offset,
    {
        out.append(LEFT);
        out.append(PHI);
        out.append(RIGHT);
        total_offset -= 1;
    }
}

/// The text that the element type's `Debug` writes for `value`, as
/// `format!("{:?}", value)` returns it. Nothing is claimed of the text.
#[verifier::external_body]
fn debug_text<T: core::fmt::Debug>(value: &T) -> (text: String) {
    format!("{:?}", value)
}

impl<T: core::fmt::Display> Vector<T> {
    /// The text of each element as its `Display` gives it, front to back.
    pub fn display_texts(&self) -> (texts: Vec<String>)
        requires
            self.wf(),
        ensures
            displayed(self@.items, texts@),
    {
        let mut texts: Vec<String> = Vec::new();
        let mut index: usize = 0;
        while index < self.len()
            invariant
                self.wf(),
                index <= self.len(),
                displayed(self@.items.take(index as int), texts@),
            decreases self.len() - index,
        {
            let text = self[index].to_string();
            texts.push(text);
            index += 1;
        }
        texts
    }

    /// Appends the cells of the block to `out`: the elements in logical
    /// order, then a placeholder for each free slot.
    pub fn pretty_print(&self, out: &mut String)
        requires
            self.wf(),
        ensures
            exists|texts: Seq<String>|
                displayed(self@.items, texts) && final(out)@ == old(out)@ + block_text(
                    views(texts),
                    self@.capacity,
                ),
    {
        let texts = self.display_texts();
        render_cells(&texts, self.capacity(), out);
    }

    /// The plain rendering: a lone placeholder for a vector without a block,
    /// else the cells of the block.
    pub fn to_text(&self) -> (out: String)
        requires
            self.wf(),
        ensures
            self@.capacity == 0 ==> out@ == PHI@,
            self@.capacity != 0 ==> exists|texts: Seq<String>|
                displayed(self@.items, texts) && out@ == block_text(views(texts), self@.capacity),
    {
        let mut out = String::new();
        if self.capacity() != 0 {
            self.pretty_print(&mut out);
        } else {
            out.append(PHI);
        }
        out
    }
}

impl<T: core::fmt::Debug> Vector<T> {
    /// The text of each element as its `Debug` gives it, front to back.
    pub fn debug_texts(&self) -> (texts: Vec<String>)
        requires
            self.wf(),
        ensures
            texts.len() == self.len(),
    {
        let mut texts: Vec<String> = Vec::new();
        let mut index: usize = 0;
        while index < self.len()
            invariant
                self.wf(),
                index <= self.len(),
                texts.len() == index,
            decreases self.len() - index,
        {
            let text = debug_text(&self[index]);
            texts.push(text);
            index += 1;
        }
        texts
    }

    /// Appends length and capacity to `out`, and then the cells of the block.
    pub fn vec_debug(&self, out: &mut String)
        requires
            self.wf(),
        ensures
            exists|texts: Seq<String>|
                texts.len() == self.len() && final(out)@ == old(out)@ + debug_header(
                    self@.len(),
                    self@.capacity,
                ) + block_text(views(texts), self@.capacity),
    {
        out.append("Length = ");
        out.append(decimal_text(self.len()).as_str());
        out.append(" Capacity = ");
        out.append(decimal_text(self.capacity()).as_str());
        out.append(" -> ");
        let texts = self.debug_texts();
        render_cells(&texts, self.capacity(), out);
    }

    /// The debug rendering: a lone placeholder for a vector without a block,
    /// else length, capacity and the cells of the block.
    pub fn to_debug_text(&self) -> (out: String)
        requires
            self.wf(),
        ensures
            self@.capacity == 0 ==> out@ == PHI@,
            self@.capacity != 0 ==> exists|texts: Seq<String>|
                texts.len() == self.len() && out@ == debug_header(self@.len(), self@.capacity)
                    + block_text(views(texts), self@.capacity),
    {
        let mut out = String::new();
        if self.capacity() != 0 {
            self.vec_debug(&mut out);
        } else {
            out.append(PHI);
        }
        out
    }
}

} // verus!
