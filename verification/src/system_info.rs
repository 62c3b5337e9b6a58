//! System statistics sent to the frontend about every 1.5 s.
//!
//! CPU and memory figures and the per-second rates are computed by the shell
//! in floating point; this module totals the bytes that the network
//! interfaces received and transmitted since the last refresh.

use vstd::prelude::*;

verus! {

/// Total bytes received by the interfaces of `s`, each given as
/// `(received, transmitted)`.
pub open spec fn total_received(s: Seq<(u64, u64)>) -> int
    decreases s.len(),
{
    if s.len() == 0 {
        0
    } else {
        total_received(s.drop_last()) + s.last().0
    }
}

/// Total bytes transmitted by the interfaces of `s`.
pub open spec fn total_transmitted(s: Seq<(u64, u64)>) -> int
    decreases s.len(),
{
    if s.len() == 0 {
        0
    } else {
        total_transmitted(s.drop_last()) + s.last().1
    }
}

proof fn lemma_totals_grow(s: Seq<(u64, u64)>, k: int)
    requires
        0 <= k <= s.len(),
    ensures
        0 <= total_received(s.take(k)) <= total_received(s),
        0 <= total_transmitted(s.take(k)) <= total_transmitted(s),
    decreases s.len(),
{
    if s.len() > 0 {
        if k == s.len() {
            assert(s.take(k) =~= s);
            lemma_totals_grow(s.drop_last(), k - 1);
            assert(s.drop_last().take(k - 1) =~= s.drop_last());
        } else {
            lemma_totals_grow(s.drop_last(), k);
            assert(s.drop_last().take(k) =~= s.take(k));
        }
    } else {
        assert(s.take(k) =~= s);
    }
}

/// The bytes received and transmitted by all interfaces together, given each
/// interface's `(received, transmitted)`; none where a total overflows a
/// `u64`.
pub fn network_totals(per_interface: &Vec<(u64, u64)>) -> (r: Option<(u64, u64)>)
    ensures
        r is None <==> (total_received(per_interface@) > u64::MAX || total_transmitted(
            per_interface@,
        ) > u64::MAX),
        r matches Some(t) ==> t.0 == total_received(per_interface@) && t.1 == total_transmitted(
            per_interface@,
        ),
{
    let n = per_interface.len();
    let mut rx: u64 = 0;
    let mut tx: u64 = 0;
    for i in 0..n
        invariant
            n == per_interface@.len(),
            rx == total_received(per_interface@.take(i as int)),
            tx == total_transmitted(per_interface@.take(i as int)),
    {
        proof {
            assert(per_interface@.take(i + 1).drop_last() =~= per_interface@.take(i as int));
            lemma_totals_grow(per_interface@, i + 1);
        }
        let (received, transmitted) = per_interface[i];
        match (rx.checked_add(received), tx.checked_add(transmitted)) {
            (Some(r), Some(t)) => {
                rx = r;
                tx = t;
            },
            _ => {
                return None;
            },
        }
    }
    proof {
        assert(per_interface@.take(n as int) =~= per_interface@);
    }
    Some((rx, tx))
}

/// Totals add up: the bytes of two lists of interfaces together are the
/// sums of each list's bytes, and one interface contributes its own bytes.
pub proof fn lemma_totals_add(a: Seq<(u64, u64)>, b: Seq<(u64, u64)>, e: (u64, u64))
    ensures
        total_received(a + b) == total_received(a) + total_received(b),
        total_transmitted(a + b) == total_transmitted(a) + total_transmitted(b),
        total_received(seq![e]) == e.0,
        total_transmitted(seq![e]) == e.1,
        total_received(Seq::<(u64, u64)>::empty()) == 0,
    decreases b.len(),
{
    assert(seq![e].drop_last() =~= Seq::<(u64, u64)>::empty());
    assert(total_received(seq![e].drop_last()) == 0);
    assert(total_transmitted(seq![e].drop_last()) == 0);
    assert(seq![e].last() == e);
    if b.len() > 0 {
        lemma_totals_add(a, b.drop_last(), e);
        assert((a + b).drop_last() =~= a + b.drop_last());
        assert((a + b).last() == b.last());
    } else {
        assert(a + b =~= a);
    }
}

} // verus!
