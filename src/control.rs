//! The control loop's settings: the tick period, and finding a pack by name.
use vstd::prelude::*;

use crate::pack::SoundPack;
use crate::text::chars_of;

verus! {

/// How often metrics are sampled and the engine updated.
#[derive(Debug, Clone, Copy, PartialEq, Eq, Structural)]
pub enum RefreshRate {
    Fast,
    Normal,
    Slow,
    VerySlow,
}

/// The tick period of each rate, in milliseconds.
pub open spec fn millis_of(r: RefreshRate) -> u32 {
    match r {
        RefreshRate::Fast => 100,
        RefreshRate::Normal => 250,
        RefreshRate::Slow => 500,
        RefreshRate::VerySlow => 1000,
    }
}

/// The menu label of each rate.
pub open spec fn label_of(r: RefreshRate) -> Seq<char> {
    match r {
        RefreshRate::Fast => "Fast (100ms)"@,
        RefreshRate::Normal => "Normal (250ms)"@,
        RefreshRate::Slow => "Slow (500ms)"@,
        RefreshRate::VerySlow => "Very Slow (1s)"@,
    }
}

impl RefreshRate {
    pub fn as_millis(&self) -> (r: u32)
        ensures
            r == millis_of(*self),
    {
        match self {
            RefreshRate::Fast => 100,
            RefreshRate::Normal => 250,
            RefreshRate::Slow => 500,
            RefreshRate::VerySlow => 1000,
        }
    }

    pub fn label(&self) -> (r: &'static str)
        ensures
            r@ == label_of(*self),
    {
        match self {
            RefreshRate::Fast => "Fast (100ms)",
            RefreshRate::Normal => "Normal (250ms)",
            RefreshRate::Slow => "Slow (500ms)",
            RefreshRate::VerySlow => "Very Slow (1s)",
        }
    }
}

impl Default for RefreshRate {
    fn default() -> (r: Self)
        ensures
            r == RefreshRate::Normal,
    {
        RefreshRate::Normal
    }
}

/// The code of `c`, with an ASCII capital turned into its small letter.
pub open spec fn ascii_lower(c: char) -> int {
    if 'A' <= c && c <= 'Z' {
        (c as u32) + 32
    } else {
        c as u32 as int
    }
}

/// `a` and `b` are equal once ASCII letters are compared without case.
pub open spec fn same_ignoring_ascii_case(a: Seq<char>, b: Seq<char>) -> bool {
    a.len() == b.len() && forall|i: int| 0 <= i < a.len() ==> ascii_lower(#[trigger] a[i]) == ascii_lower(b[i])
}

fn ascii_lower_exec(c: char) -> (r: u32)
    ensures
        r == ascii_lower(c),
{
    if 'A' <= c && c <= 'Z' {
        (c as u32) + 32
    } else {
        c as u32
    }
}

/// Compares as `str::eq_ignore_ascii_case` does.
pub fn eq_ignore_ascii_case(a: &str, b: &str) -> (r: bool)
    ensures
        r == same_ignoring_ascii_case(a@, b@),
{
    let x = chars_of(a);
    let y = chars_of(b);
    if x.len() != y.len() {
        return false;
    }
    let mut i: usize = 0;
    while i < x.len()
        invariant
            i <= x@.len(),
            x@ == a@,
            y@ == b@,
            x@.len() == y@.len(),
            forall|j: int| 0 <= j < i ==> ascii_lower(#[trigger] x@[j]) == ascii_lower(y@[j]),
        decreases x@.len() - i,
    {
        if ascii_lower_exec(x[i]) != ascii_lower_exec(y[i]) {
            return false;
        }
        i = i + 1;
    }
    true
}

/// The index of the first pack whose name matches `name` without regard to
/// ASCII case, if any.
pub fn find_pack(packs: &Vec<SoundPack>, name: &str) -> (r: Option<usize>)
    ensures
        match r {
            Some(i) => i < packs@.len() && same_ignoring_ascii_case(packs@[i as int].name@, name@)
                && forall|j: int| 0 <= j < i ==> !same_ignoring_ascii_case(
                (#[trigger] packs@[j]).name@,
                name@,
            ),
            None => forall|j: int| 0 <= j < packs@.len() ==> !same_ignoring_ascii_case(
                (#[trigger] packs@[j]).name@,
                name@,
            ),
        },
{
    let mut i: usize = 0;
    while i < packs.len()
        invariant
            i <= packs@.len(),
            forall|j: int| 0 <= j < i ==> !same_ignoring_ascii_case(
                (#[trigger] packs@[j]).name@,
                name@,
            ),
        decreases packs@.len() - i,
    {
        if eq_ignore_ascii_case(packs[i].name(), name) {
            return Some(i);
        }
        i = i + 1;
    }
    None
}

} // verus!
