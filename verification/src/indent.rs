//! The indentation of nested joints.

use vstd::prelude::*;

verus! {

/// How one level of nesting is indented.
///
/// `Spaces` is meant for a width of one or more; `with_spaces` makes
/// `NoIndentation` of a width of none.
#[derive(Clone, Debug, PartialEq, Eq, Hash)]
pub enum IndentStyle {
    /// Nested joints are not indented.
    NoIndentation,
    /// One tab for each level.
    Tabs,
    /// This many spaces for each level.
    Spaces(usize),
}

/// `unit` written `count` times in a row.
pub open spec fn repeated(unit: Seq<u8>, count: nat) -> Seq<u8>
    decreases count,
{
    if count == 0 {
        Seq::empty()
    } else {
        repeated(unit, (count - 1) as nat) + unit
    }
}

impl IndentStyle {
    /// The bytes that indent one level.
    pub open spec fn unit(self) -> Seq<u8> {
        match self {
            IndentStyle::NoIndentation => Seq::empty(),
            IndentStyle::Tabs => seq![9u8],
            IndentStyle::Spaces(n) => Seq::new(n as nat, |i: int| 32u8),
        }
    }

    /// The bytes that stand before a line at nesting depth `depth`.
    pub open spec fn prefix(self, depth: nat) -> Seq<u8> {
        repeated(self.unit(), depth)
    }

    /// Indentation by `n` spaces for each level; none at all where `n` is 0.
    pub fn with_spaces(n: usize) -> (style: Self)
        ensures
            style == if n == 0 {
                IndentStyle::NoIndentation
            } else {
                IndentStyle::Spaces(n)
            },
    {
        if n == 0 {
            IndentStyle::NoIndentation
        } else {
            IndentStyle::Spaces(n)
        }
    }

    /// The bytes that indent one level: nothing, one tab, or the spaces.
    pub fn prefix_chars(&self) -> (unit: Vec<u8>)
        ensures
            unit@ == self.unit(),
    {
        let mut unit: Vec<u8> = Vec::new();
        match self {
            IndentStyle::NoIndentation => {},
            IndentStyle::Tabs => {
                unit.push(9u8);
            },
            IndentStyle::Spaces(n) => {
                let mut i: usize = 0;
                while i < *n
                    invariant
                        i <= *n,
                        unit@ == Seq::new(i as nat, |k: int| 32u8),
                    decreases *n - i,
                {
                    unit.push(32u8);
                    i += 1;
                }
            },
        }
        unit
    }
}

impl Default for IndentStyle {
    /// One tab for each level.
    fn default() -> (style: Self)
        ensures
            style == IndentStyle::Tabs,
    {
        IndentStyle::Tabs
    }
}

} // verus!
