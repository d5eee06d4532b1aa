//! The built-in tools a session may use, and which of them are enabled. The tools
//! come in a fixed order: the platform shell first, then `view`, `edit`,
//! `create`, `grep`, `glob` and `task`. A selection is a tick for each of them.

use vstd::prelude::*;

verus! {

/// How many built-in tools there are.
pub const TOOL_COUNT: usize = 7;

/// Whether bit `i` of `mask` is set.
pub open spec fn bit(mask: u8, i: u8) -> bool {
    (mask >> i) & 1u8 == 1u8
}

/// A selection of built-in tools, one bit per tool in the fixed order.
#[derive(Debug, Clone, Copy, PartialEq, Eq, Structural)]
pub struct Toolset {
    mask: u8,
}

impl View for Toolset {
    type V = Seq<bool>;

    /// A tick for each tool, in the fixed order.
    closed spec fn view(&self) -> Seq<bool> {
        Seq::new(TOOL_COUNT as nat, |i: int| bit(self.mask, i as u8))
    }
}

/// Every tool ticked.
pub open spec fn all_ticked() -> Seq<bool> {
    Seq::new(TOOL_COUNT as nat, |i: int| true)
}

/// Only the shell ticked.
pub open spec fn shell_ticked() -> Seq<bool> {
    Seq::new(TOOL_COUNT as nat, |i: int| i == 0)
}

/// No tool ticked.
pub open spec fn none_ticked() -> Seq<bool> {
    Seq::new(TOOL_COUNT as nat, |i: int| false)
}

/// The ticks with the one at `index` flipped; an index past the last tool changes
/// nothing.
pub open spec fn flipped(ticks: Seq<bool>, index: int) -> Seq<bool> {
    if 0 <= index < ticks.len() {
        ticks.update(index, !ticks[index])
    } else {
        ticks
    }
}

/// How many ticks are set.
pub open spec fn ticked_count(ticks: Seq<bool>) -> nat
    decreases ticks.len(),
{
    if ticks.len() == 0 {
        0
    } else {
        ticked_count(ticks.drop_last()) + if ticks.last() {
            1nat
        } else {
            0nat
        }
    }
}

proof fn lemma_flip_bit(mask: u8, index: u8, j: u8)
    by (bit_vector)
    requires
        index < 7,
        j < 7,
    ensures
        bit(mask ^ (1u8 << index), j) == if j == index {
            !bit(mask, j)
        } else {
            bit(mask, j)
        },
{
}

proof fn lemma_constant_bits(j: u8)
    by (bit_vector)
    requires
        j < 7,
    ensures
        bit(0x7fu8, j),
        bit(1u8, j) == (j == 0),
        !bit(0u8, j),
{
}

proof fn lemma_ticked_count_bound(ticks: Seq<bool>)
    ensures
        ticked_count(ticks) <= ticks.len(),
    decreases ticks.len(),
{
    if ticks.len() > 0 {
        lemma_ticked_count_bound(ticks.drop_last());
    }
}

impl Toolset {
    /// Every tool enabled.
    pub fn all() -> (t: Toolset)
        ensures
            t@ == all_ticked(),
    {
        let t = Toolset { mask: 0x7f };
        assert forall|j: int| 0 <= j < TOOL_COUNT implies t@[j] == all_ticked()[j] by {
            lemma_constant_bits(j as u8);
        }
        assert(t@ =~= all_ticked());
        t
    }

    /// Only the shell enabled.
    pub fn shell_only() -> (t: Toolset)
        ensures
            t@ == shell_ticked(),
    {
        let t = Toolset { mask: 1 };
        assert forall|j: int| 0 <= j < TOOL_COUNT implies t@[j] == shell_ticked()[j] by {
            lemma_constant_bits(j as u8);
        }
        assert(t@ =~= shell_ticked());
        t
    }

    /// No tool enabled.
    pub fn empty() -> (t: Toolset)
        ensures
            t@ == none_ticked(),
    {
        let t = Toolset { mask: 0 };
        assert forall|j: int| 0 <= j < TOOL_COUNT implies t@[j] == none_ticked()[j] by {
            lemma_constant_bits(j as u8);
        }
        assert(t@ =~= none_ticked());
        t
    }

    /// Whether the tool at `index` is enabled; no tool lies past the last one.
    pub fn contains_at(&self, index: usize) -> (b: bool)
        ensures
            b == (index < TOOL_COUNT && self@[index as int]),
    {
        if index < TOOL_COUNT {
            let i: u8 = index as u8;
            (self.mask >> i) & 1u8 == 1u8
        } else {
            false
        }
    }

    /// Flips the tool at `index`; returns whether there is such a tool (past the
    /// last one nothing changes).
    pub fn toggle_at(&mut self, index: usize) -> (found: bool)
        ensures
            found == (index < TOOL_COUNT),
            final(self)@ == flipped(old(self)@, index as int),
    {
        if index < TOOL_COUNT {
            let i: u8 = index as u8;
            let ghost before = self@;
            self.mask = self.mask ^ (1u8 << i);
            assert forall|j: int| 0 <= j < TOOL_COUNT implies self@[j] == flipped(before, index as int)[j] by {
                lemma_flip_bit(old(self).mask, i, j as u8);
            }
            assert(self@ =~= flipped(before, index as int));
            true
        } else {
            false
        }
    }

    /// How many tools are enabled.
    pub fn len(&self) -> (n: usize)
        ensures
            n == ticked_count(self@),
    {
        let mut n: usize = 0;
        let mut j: u8 = 0;
        while j < 7
            invariant
                j <= 7,
                n == ticked_count(self@.take(j as int)),
                n <= j,
            decreases 7 - j,
        {
            assert(self@.take(j as int + 1).drop_last() =~= self@.take(j as int));
            if (self.mask >> j) & 1u8 == 1u8 {
                n = n + 1;
            }
            j = j + 1;
        }
        assert(self@.take(7) =~= self@);
        n
    }
}

/// The name of the tool at `index`: the shell is `powershell` on Windows and
/// `bash` elsewhere; past the last tool the name is empty.
pub fn tool_name(index: usize, windows: bool) -> (name: &'static str)
    ensures
        name@ == spec_tool_name(index as int, windows),
{
    if index == 0 {
        if windows {
            "powershell"
        } else {
            "bash"
        }
    } else if index == 1 {
        "view"
    } else if index == 2 {
        "edit"
    } else if index == 3 {
        "create"
    } else if index == 4 {
        "grep"
    } else if index == 5 {
        "glob"
    } else if index == 6 {
        "task"
    } else {
        ""
    }
}

pub open spec fn spec_tool_name(index: int, windows: bool) -> Seq<char> {
    if index == 0 {
        if windows {
            "powershell"@
        } else {
            "bash"@
        }
    } else if index == 1 {
        "view"@
    } else if index == 2 {
        "edit"@
    } else if index == 3 {
        "create"@
    } else if index == 4 {
        "grep"@
    } else if index == 5 {
        "glob"@
    } else if index == 6 {
        "task"@
    } else {
        ""@
    }
}

proof fn lemma_count_constant(n: nat, t: bool)
    ensures
        ticked_count(Seq::new(n, |i: int| t)) == if t {
            n
        } else {
            0
        },
    decreases n,
{
    if n > 0 {
        assert(Seq::new(n, |i: int| t).drop_last() =~= Seq::new((n - 1) as nat, |i: int| t));
        lemma_count_constant((n - 1) as nat, t);
    }
}

proof fn lemma_count_first_only(n: nat)
    ensures
        ticked_count(Seq::new(n, |i: int| i == 0)) == if n > 0 {
            1nat
        } else {
            0nat
        },
    decreases n,
{
    if n > 0 {
        assert(Seq::new(n, |i: int| i == 0).drop_last() =~= Seq::new((n - 1) as nat, |i: int| i == 0));
        lemma_count_first_only((n - 1) as nat);
    }
}

/// Every tool ticked counts all seven, only the shell counts one, none counts
/// nothing.
pub proof fn law_selection_counts()
    ensures
        ticked_count(all_ticked()) == TOOL_COUNT,
        ticked_count(shell_ticked()) == 1,
        ticked_count(none_ticked()) == 0,
{
    lemma_count_constant(TOOL_COUNT as nat, true);
    lemma_count_constant(TOOL_COUNT as nat, false);
    lemma_count_first_only(TOOL_COUNT as nat);
}

/// Flipping the same tool twice leaves the selection as it was.
pub proof fn law_flipping_twice_restores(ticks: Seq<bool>, index: int)
    ensures
        flipped(flipped(ticks, index), index) == ticks,
{
    assert(flipped(flipped(ticks, index), index) =~= ticks);
}

} // verus!
