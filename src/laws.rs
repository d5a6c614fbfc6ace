use vstd::prelude::*;

use crate::reader::{Outcome, ReadNModel};

verus! {

/// The chunks `cs` one after the other.
pub open spec fn joined(cs: Seq<Seq<u8>>) -> Seq<u8>
    decreases cs.len(),
{
    if cs.len() == 0 {
        Seq::empty()
    } else {
        cs[0] + joined(cs.drop_first())
    }
}

/// Whether a reader in state `m`, having said `o`, takes the chunks `cs` as
/// answers: each one answers a request for more bytes and is no longer than it.
pub open spec fn accepts(m: ReadNModel, o: Outcome, cs: Seq<Seq<u8>>) -> bool
    decreases cs.len(),
{
    if cs.len() == 0 {
        true
    } else {
        &&& o is Need
        &&& cs[0].len() <= o->Need_0
        &&& accepts(m.on_bytes(cs[0]).0, m.on_bytes(cs[0]).1, cs.drop_first())
    }
}

/// The state and last word of a reader in state `m`, having said `o`, once
/// the source has answered with the chunks `cs` while it asked for more.
pub open spec fn run(m: ReadNModel, o: Outcome, cs: Seq<Seq<u8>>) -> (ReadNModel, Outcome)
    decreases cs.len(),
{
    if cs.len() == 0 || o !is Need {
        (m, o)
    } else {
        run(m.on_bytes(cs[0]).0, m.on_bytes(cs[0]).1, cs.drop_first())
    }
}

proof fn lemma_joined_empty(cs: Seq<Seq<u8>>)
    requires
        forall|i: int| 0 <= i < cs.len() ==> #[trigger] cs[i].len() > 0,
        joined(cs).len() == 0,
    ensures
        cs.len() == 0,
{
    if cs.len() > 0 {
        assert(cs[0].len() > 0);
    }
}

/// A read that lacks bytes ends with all of them once the source hands over
/// chunks that make up exactly what it lacks.
proof fn lemma_fill(m: ReadNModel, cs: Seq<Seq<u8>>)
    requires
        m.pending,
        m.received.len() < m.wanted,
        m.received.len() + joined(cs).len() == m.wanted,
        forall|i: int| 0 <= i < cs.len() ==> #[trigger] cs[i].len() > 0,
    ensures
        accepts(m, Outcome::Need(m.missing()), cs),
        run(m, Outcome::Need(m.missing()), cs) == (
        ReadNModel { received: m.received + joined(cs), pending: false, ..m },
        Outcome::Done(m.received + joined(cs))),
    decreases cs.len(),
{
    if cs.len() == 0 {
        return;
    }
    let c = cs[0];
    let rest = cs.drop_first();
    assert forall|i: int| 0 <= i < rest.len() implies #[trigger] rest[i].len() > 0 by {
        assert(rest[i] == cs[i + 1]);
    }
    if m.received.len() + c.len() == m.wanted {
        lemma_joined_empty(rest);
        assert(joined(cs) =~= c);
        reveal_with_fuel(accepts, 2);
        reveal_with_fuel(run, 2);
    } else {
        let next = ReadNModel { received: m.received + c, ..m };
        lemma_fill(next, rest);
        assert(next.received + joined(rest) =~= m.received + joined(cs));
    }
}

/// A read that lacks bytes fails at the end of the stream once the source has
/// handed over chunks that make up fewer bytes than it lacks.
proof fn lemma_exhaust(m: ReadNModel, cs: Seq<Seq<u8>>)
    requires
        m.pending,
        m.received.len() + joined(cs).len() < m.wanted,
        forall|i: int| 0 <= i < cs.len() ==> #[trigger] cs[i].len() > 0,
    ensures
        accepts(m, Outcome::Need(m.missing()), cs.push(Seq::empty())),
        run(m, Outcome::Need(m.missing()), cs.push(Seq::empty())).1 == (Outcome::EndOfStream {
            wanted: m.wanted,
            received: m.received.len() + joined(cs).len(),
        }),
    decreases cs.len(),
{
    let e = Seq::<u8>::empty();
    if cs.len() == 0 {
        assert(cs.push(e).drop_first() =~= Seq::<Seq<u8>>::empty());
        assert(cs.push(e)[0] == e);
        assert(joined(cs).len() == 0);
        reveal_with_fuel(accepts, 2);
        reveal_with_fuel(run, 2);
        return;
    }
    let c = cs[0];
    let rest = cs.drop_first();
    assert forall|i: int| 0 <= i < rest.len() implies #[trigger] rest[i].len() > 0 by {
        assert(rest[i] == cs[i + 1]);
    }
    assert(cs.push(e)[0] == c);
    assert(cs.push(e).drop_first() =~= rest.push(e));
    let next = ReadNModel { received: m.received + c, ..m };
    lemma_exhaust(next, rest);
}

/// A read of no bytes is complete at once, with no bytes, and asks the
/// source for nothing: no answer of the source is taken.
pub proof fn lemma_read_zero(m: ReadNModel, cs: Seq<Seq<u8>>)
    ensures
        m.start(0).1 == Outcome::Done(Seq::<u8>::empty()),
        accepts(m.start(0).0, m.start(0).1, cs) <==> cs.len() == 0,
{
}

/// Where the source holds at least `n` bytes `s`, a read of `n` bytes takes
/// the chunks the source hands over, which make up its first `n` bytes,
/// asks for no byte beyond them, and returns exactly those `n` bytes.
pub proof fn lemma_reads_exactly(m: ReadNModel, n: nat, s: Seq<u8>, cs: Seq<Seq<u8>>)
    requires
        n <= s.len(),
        joined(cs) == s.subrange(0, n as int),
        forall|i: int| 0 <= i < cs.len() ==> #[trigger] cs[i].len() > 0,
    ensures
        accepts(m.start(n).0, m.start(n).1, cs),
        run(m.start(n).0, m.start(n).1, cs).1 == Outcome::Done(s.subrange(0, n as int)),
{
    if n == 0 {
        lemma_joined_empty(cs);
        assert(s.subrange(0, 0) =~= Seq::<u8>::empty());
    } else {
        let start = m.start(n).0;
        lemma_fill(start, cs);
        assert(start.received + joined(cs) =~= joined(cs));
    }
}

/// Where the source holds only the bytes `s` before its end, fewer than `n`,
/// a read of `n` bytes takes them and the end of the stream, and fails there:
/// it never completes with a part of what it wanted.
pub proof fn lemma_short_source_fails(m: ReadNModel, n: nat, s: Seq<u8>, cs: Seq<Seq<u8>>)
    requires
        s.len() < n,
        joined(cs) == s,
        forall|i: int| 0 <= i < cs.len() ==> #[trigger] cs[i].len() > 0,
    ensures
        accepts(m.start(n).0, m.start(n).1, cs.push(Seq::empty())),
        run(m.start(n).0, m.start(n).1, cs.push(Seq::empty())).1 == (Outcome::EndOfStream {
            wanted: n,
            received: s.len(),
        }),
{
    lemma_exhaust(m.start(n).0, cs);
}

/// Two reads one after the other, of `n1` and then `n2` bytes, return the
/// bytes of the stream `s` from 0 to `n1` and from `n1` to `n1 + n2`.
pub proof fn lemma_reads_are_contiguous(
    m: ReadNModel,
    n1: nat,
    n2: nat,
    s: Seq<u8>,
    cs1: Seq<Seq<u8>>,
    cs2: Seq<Seq<u8>>,
)
    requires
        n1 + n2 <= s.len(),
        joined(cs1) == s.subrange(0, n1 as int),
        joined(cs2) == s.subrange(n1 as int, (n1 + n2) as int),
        forall|i: int| 0 <= i < cs1.len() ==> #[trigger] cs1[i].len() > 0,
        forall|i: int| 0 <= i < cs2.len() ==> #[trigger] cs2[i].len() > 0,
    ensures
        ({
            let first = run(m.start(n1).0, m.start(n1).1, cs1);
            let second = run(first.0.start(n2).0, first.0.start(n2).1, cs2);
            &&& accepts(m.start(n1).0, m.start(n1).1, cs1)
            &&& first.1 == Outcome::Done(s.subrange(0, n1 as int))
            &&& accepts(first.0.start(n2).0, first.0.start(n2).1, cs2)
            &&& second.1 == Outcome::Done(s.subrange(n1 as int, (n1 + n2) as int))
        }),
{
    lemma_reads_exactly(m, n1, s, cs1);
    let first = run(m.start(n1).0, m.start(n1).1, cs1);
    let rest = s.subrange(n1 as int, s.len() as int);
    assert(rest.subrange(0, n2 as int) =~= s.subrange(n1 as int, (n1 + n2) as int));
    lemma_reads_exactly(first.0, n2, rest, cs2);
}

/// After a read of more than `n` bytes, a read of `n` bytes returns exactly
/// the `n` bytes the source hands over, and the same as a reader that never
/// read before: nothing left in the scratch buffer shows through.
pub proof fn lemma_no_stale_bytes(prev: ReadNModel, n: nat, cs: Seq<Seq<u8>>)
    requires
        prev.wanted > n,
        joined(cs).len() == n,
        forall|i: int| 0 <= i < cs.len() ==> #[trigger] cs[i].len() > 0,
    ensures
        ({
            let fresh = ReadNModel { wanted: 0, received: Seq::empty(), pending: false };
            &&& run(prev.start(n).0, prev.start(n).1, cs).1 == Outcome::Done(joined(cs))
            &&& run(prev.start(n).0, prev.start(n).1, cs) == run(
                fresh.start(n).0,
                fresh.start(n).1,
                cs,
            )
        }),
{
    let s = joined(cs);
    assert(s.subrange(0, n as int) =~= s);
    lemma_reads_exactly(prev, n, s, cs);
}

} // verus!
