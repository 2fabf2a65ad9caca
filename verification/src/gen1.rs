//! A small indented-block string builder used when writing generated
//! sources by hand: items at indent levels between a scope opener and a
//! scope closer.

use vstd::prelude::*;

use crate::stdx::push_char;

verus! {

/// The punctuation of one block kind: what opens and closes a scope, what
/// separates items, and what one indent level looks like.
#[derive(Clone, Copy, Debug, PartialEq)]
pub struct GenKind {
    pub item_suffix: &'static str,
    pub item_indent: &'static str,
    pub scope_start: &'static str,
    pub scope_end: &'static str,
}

/// Mathematical model of a block kind.
#[verifier::ext_equal]
pub struct SpecGenKind {
    pub item_suffix: Seq<char>,
    pub item_indent: Seq<char>,
    pub scope_start: Seq<char>,
    pub scope_end: Seq<char>,
}

impl View for GenKind {
    type V = SpecGenKind;

    open spec fn view(&self) -> SpecGenKind {
        SpecGenKind {
            item_suffix: self.item_suffix@,
            item_indent: self.item_indent@,
            scope_start: self.scope_start@,
            scope_end: self.scope_end@,
        }
    }
}

/// A block under construction: each item holds its indent level.
#[derive(Debug, PartialEq)]
pub struct Gen {
    pub items: Vec<(u8, String)>,
    pub kind: GenKind,
}

/// Mathematical model of a block under construction.
#[verifier::ext_equal]
pub struct SpecGen {
    pub items: Seq<(u8, Seq<char>)>,
    pub kind: SpecGenKind,
}

impl View for Gen {
    type V = SpecGen;

    open spec fn view(&self) -> SpecGen {
        SpecGen { items: self.items.deep_view(), kind: self.kind@ }
    }
}

impl GenKind {
    /// An empty block of this kind.
    pub fn start(&self) -> (r: Gen)
        ensures
            r@.items =~= Seq::<(u8, Seq<char>)>::empty(),
            r@.kind == self@,
    {
        Gen { items: Vec::new(), kind: *self }
    }
}

/// The indent text repeated the given number of times.
pub open spec fn spec_repeat(s: Seq<char>, n: int) -> Seq<char>
    decreases n,
{
    if n <= 0 {
        Seq::empty()
    } else {
        spec_repeat(s, n - 1) + s
    }
}

/// The rendered text of one item: its indent levels then its text.
pub open spec fn spec_item_text(kind: SpecGenKind, item: (u8, Seq<char>)) -> Seq<char> {
    spec_repeat(kind.item_indent, item.0 as int) + item.1
}

/// The rendered items, separated by the item suffix.
pub open spec fn spec_items_text(kind: SpecGenKind, items: Seq<(u8, Seq<char>)>) -> Seq<char>
    decreases items.len(),
{
    if items.len() == 0 {
        Seq::empty()
    } else if items.len() == 1 {
        spec_item_text(kind, items[0])
    } else {
        spec_items_text(kind, items.drop_last()) + kind.item_suffix + spec_item_text(
            kind,
            items.last(),
        )
    }
}

/// The rendered text of a whole block: the scope opener, the separated
/// items, and the scope closer.
pub open spec fn spec_gen_text(g: SpecGen) -> Seq<char> {
    g.kind.scope_start + spec_items_text(g.kind, g.items) + g.kind.scope_end
}

impl Gen {
    /// Appends an item at indent level zero.
    pub fn ad0(&mut self, text: &str)
        ensures
            final(self)@.items == old(self)@.items.push((0u8, text@)),
            final(self)@.kind == old(self)@.kind,
    {
        self.items.push((0, text.to_owned()));
        proof {
            assert(self@.items =~= old(self)@.items.push((0u8, text@)));
        }
    }

    /// Appends an item at indent level one.
    pub fn ad1(&mut self, text: &str)
        ensures
            final(self)@.items == old(self)@.items.push((1u8, text@)),
            final(self)@.kind == old(self)@.kind,
    {
        self.items.push((1, text.to_owned()));
        proof {
            assert(self@.items =~= old(self)@.items.push((1u8, text@)));
        }
    }

    /// Renders the block: the scope opener, each item at its indent with
    /// the suffix between items, and the scope closer.
    #[verifier::loop_isolation(false)]
    pub fn to_string(&self) -> (r: String)
        ensures
            r@ == spec_gen_text(self@),
    {
        let mut buf = String::new();
        buf.append(self.kind.scope_start);
        let n: usize = self.items.len();
        let mut i: usize = 0;
        proof {
            assert(self@.items.take(0) =~= Seq::<(u8, Seq<char>)>::empty());
            assert(buf@ =~= self@.kind.scope_start + spec_items_text(self@.kind,
                self@.items.take(0)));
        }
        while i < n
            invariant
                0 <= i <= n,
                buf@ == self@.kind.scope_start + spec_items_text(self@.kind, self@.items.take(
                    i as int,
                )),
            decreases n - i,
        {
            if i > 0 {
                buf.append(self.kind.item_suffix);
            }
            let levels: u8 = self.items[i].0;
            let mut k: u8 = 0;
            proof {
                assert(buf@ + spec_repeat(self@.kind.item_indent, 0) =~= buf@);
            }
            let ghost buf_before_indent = buf@;
            while k < levels
                invariant
                    0 <= k <= levels,
                    buf@ == buf_before_indent + spec_repeat(self@.kind.item_indent, k as int),
                decreases levels - k,
            {
                buf.append(self.kind.item_indent);
                k = k + 1;
            }
            buf.append(self.items[i].1.as_str());
            proof {
                assert(self@.items.take(i + 1).drop_last() =~= self@.items.take(i as int));
                assert(self@.items.take(i + 1).last() == self@.items[i as int]);
                assert(self@.items[i as int] == (self.items@[i as int].0,
                    self.items@[i as int].1@));
                assert(buf@ =~= self@.kind.scope_start + spec_items_text(self@.kind,
                    self@.items.take(i + 1)));
            }
            i = i + 1;
        }
        buf.append(self.kind.scope_end);
        proof {
            assert(self@.items.take(n as int) =~= self@.items);
            assert(buf@ =~= spec_gen_text(self@));
        }
        buf
    }
}

} // verus!
