//! How the forms lay out their voices: which role each voice takes, and the
//! order voices enter a fugue.

use vstd::prelude::*;

use crate::compose::instrument::Role;

verus! {

/// The role of voice `index` of `n`: the last of several is the bass, the
/// first the lead, the rest inner voices.
pub open spec fn role_spec(index: int, n: int) -> Role {
    if n > 1 && index + 1 == n {
        Role::Bass
    } else if index == 0 {
        Role::Lead
    } else {
        Role::Inner
    }
}

/// The role voice `index` of `n` takes.
pub fn role_of(index: usize, n: usize) -> (r: Role)
    ensures
        r == role_spec(index as int, n as int),
{
    if n > 1 && index == n - 1 {
        Role::Bass
    } else if index == 0 {
        Role::Lead
    } else {
        Role::Inner
    }
}

/// The voice that enters `i`th among `m` voices: alto, soprano, bass,
/// tenor …, that is the first two swapped, and with four voices the last
/// two as well.
pub open spec fn entry_voice(m: int, i: int) -> int {
    if m == 1 {
        0
    } else if m == 2 {
        i
    } else if m == 3 {
        if i == 0 {
            1
        } else if i == 1 {
            0
        } else {
            2
        }
    } else if m == 4 {
        if i == 0 {
            1
        } else if i == 1 {
            0
        } else if i == 2 {
            3
        } else {
            2
        }
    } else if i == 0 {
        1
    } else if i == 1 {
        0
    } else {
        i
    }
}

/// The entries of `n` voices (at least one): each voice in order of entry,
/// every second entry an answer.
pub open spec fn entry_order_spec(n: int) -> Seq<(usize, bool)> {
    let m = if n < 1 {
        1
    } else {
        n
    };
    Seq::new(m as nat, |i: int| (entry_voice(m, i) as usize, i % 2 == 1))
}

/// The order voices enter: alto, soprano, bass, tenor …
pub fn entry_order(n: usize) -> (v: Vec<(usize, bool)>)
    ensures
        v@ == entry_order_spec(n as int),
{
    let m: usize = if n < 1 {
        1
    } else {
        n
    };
    let mut out: Vec<(usize, bool)> = Vec::new();
    let mut i: usize = 0;
    while i < m
        invariant
            m == (if n < 1 { 1 } else { n }),
            i <= m,
            out@.len() == i,
            forall|k: int| 0 <= k < i ==> #[trigger] out@[k] == (entry_voice(m as int, k) as usize, k % 2 == 1),
        decreases m - i,
    {
        let voice: usize = if m == 1 {
            0
        } else if m == 2 {
            i
        } else if m == 3 {
            if i == 0 {
                1
            } else if i == 1 {
                0
            } else {
                2
            }
        } else if m == 4 {
            if i == 0 {
                1
            } else if i == 1 {
                0
            } else if i == 2 {
                3
            } else {
                2
            }
        } else if i == 0 {
            1
        } else if i == 1 {
            0
        } else {
            i
        };
        out.push((voice, i % 2 == 1));
        i = i + 1;
    }
    assert(out@ =~= entry_order_spec(n as int));
    out
}

} // verus!
