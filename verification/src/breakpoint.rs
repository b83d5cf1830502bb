//! Software breakpoints: what is remembered about a planted trap, and what
//! it means for a set of traps to have been planted.

use vstd::prelude::*;
use crate::memory::{
    lemma_written_byte_keeps_domain, lemma_written_byte_keeps_others,
    lemma_written_byte_reads_back, mem_byte, mem_with_byte, readable,
};
use crate::word::TRAP_OPCODE;

verus! {

/// The instruction byte that a trap at `addr` has overwritten.
#[derive(Clone, Copy, Debug, PartialEq, Eq, Structural)]
pub struct Restorepoint {
    pub addr: usize,
    pub orig_byte: u8,
}

/// Every entry of the table is filed under the address it restores.
pub open spec fn table_wf(table: Map<usize, Restorepoint>) -> bool {
    forall|a: usize| table.contains_key(a) ==> (#[trigger] table[a]).addr == a
}

/// The requested addresses are pairwise distinct and none of them has an
/// entry in the table yet.
pub open spec fn fresh(addrs: Seq<usize>, table: Map<usize, Restorepoint>) -> bool {
    &&& addrs.no_duplicates()
    &&& forall|i: int| 0 <= i < addrs.len() ==> !table.contains_key(#[trigger] addrs[i])
}

/// How many of `addrs`, taken from the front, lie in readable memory before
/// the first one that does not.
pub open spec fn readable_prefix(mem: Map<usize, u64>, addrs: Seq<usize>) -> nat
    decreases addrs.len(),
{
    if addrs.len() == 0 || !readable(mem, addrs[0]) {
        0
    } else {
        1 + readable_prefix(mem, addrs.skip(1))
    }
}

/// Memory after a trap has been written at each of `addrs`, in order.
pub open spec fn plant_all(mem: Map<usize, u64>, addrs: Seq<usize>) -> Map<usize, u64>
    decreases addrs.len(),
{
    if addrs.len() == 0 {
        mem
    } else {
        mem_with_byte(plant_all(mem, addrs.drop_last()), addrs.last(), TRAP_OPCODE)
    }
}

/// The table after each of `addrs` has been recorded, in order, with the
/// byte found at it right before its trap was written.
pub open spec fn record_all(
    table: Map<usize, Restorepoint>,
    mem: Map<usize, u64>,
    addrs: Seq<usize>,
) -> Map<usize, Restorepoint>
    decreases addrs.len(),
{
    if addrs.len() == 0 {
        table
    } else {
        record_all(table, mem, addrs.drop_last()).insert(
            addrs.last(),
            Restorepoint {
                addr: addrs.last(),
                orig_byte: mem_byte(plant_all(mem, addrs.drop_last()), addrs.last()),
            },
        )
    }
}

/// Traps have been planted at exactly the addresses `addrs`: `mem1` and
/// `table1` are what `mem0` and `table0` become.
///
/// Each planted address holds the trap opcode and is recorded with the
/// byte it held before; every other byte and every other entry is as it was.
pub open spec fn planted(
    mem0: Map<usize, u64>,
    table0: Map<usize, Restorepoint>,
    addrs: Seq<usize>,
    mem1: Map<usize, u64>,
    table1: Map<usize, Restorepoint>,
) -> bool {
    &&& mem1.dom() == mem0.dom()
    &&& forall|i: int|
        0 <= i < addrs.len() ==> mem_byte(mem1, #[trigger] addrs[i]) == TRAP_OPCODE
    &&& forall|b: usize| !addrs.contains(b) ==> #[trigger] mem_byte(mem1, b) == mem_byte(mem0, b)
    &&& forall|a: usize|
        #[trigger] table1.contains_key(a) <==> table0.contains_key(a) || addrs.contains(a)
    &&& forall|i: int|
        0 <= i < addrs.len() ==> table1[#[trigger] addrs[i]] == (Restorepoint {
            addr: addrs[i],
            orig_byte: mem_byte(mem0, addrs[i]),
        })
    &&& forall|a: usize| table0.contains_key(a) ==> #[trigger] table1[a] == table0[a]
}

/// What planting comes to for a list of one address: the trap is written
/// and recorded if the address is readable, and nothing happens if not.
pub proof fn lemma_plant_single(mem: Map<usize, u64>, table: Map<usize, Restorepoint>, addr: usize)
    ensures
        readable_prefix(mem, seq![addr]) == (if readable(mem, addr) {
            1nat
        } else {
            0nat
        }),
        plant_all(mem, seq![addr].take(0)) == mem,
        record_all(table, mem, seq![addr].take(0)) == table,
        plant_all(mem, seq![addr].take(1)) == mem_with_byte(mem, addr, TRAP_OPCODE),
        record_all(table, mem, seq![addr].take(1)) == table.insert(
            addr,
            Restorepoint { addr, orig_byte: mem_byte(mem, addr) },
        ),
{
    let one = seq![addr];
    assert(one[0] == addr);
    assert(one.skip(1).len() == 0);
    assert(readable_prefix(mem, one.skip(1)) == 0);
    assert(one.take(1) =~= one);
    assert(one.drop_last() =~= Seq::<usize>::empty());
    assert(one.take(0) =~= Seq::<usize>::empty());
    assert(one.last() == addr);
    assert(plant_all(mem, one.drop_last()) == mem);
    assert(record_all(table, mem, one.drop_last()) == table);
}

/// Planting nothing changes nothing.
pub proof fn lemma_planted_none(mem: Map<usize, u64>, table: Map<usize, Restorepoint>)
    ensures
        planted(mem, table, Seq::<usize>::empty(), mem, table),
{
}

/// Planting one more trap, at a readable address that is neither planted
/// nor recorded yet, extends what has been planted by that address.
pub proof fn lemma_planted_one_more(
    mem0: Map<usize, u64>,
    table0: Map<usize, Restorepoint>,
    addrs: Seq<usize>,
    mem1: Map<usize, u64>,
    table1: Map<usize, Restorepoint>,
    addr: usize,
)
    requires
        planted(mem0, table0, addrs, mem1, table1),
        !addrs.contains(addr),
        !table0.contains_key(addr),
        readable(mem1, addr),
    ensures
        planted(
            mem0,
            table0,
            addrs.push(addr),
            mem_with_byte(mem1, addr, TRAP_OPCODE),
            table1.insert(addr, Restorepoint { addr, orig_byte: mem_byte(mem1, addr) }),
        ),
{
    let more = addrs.push(addr);
    let mem2 = mem_with_byte(mem1, addr, TRAP_OPCODE);
    let table2 = table1.insert(addr, Restorepoint { addr, orig_byte: mem_byte(mem1, addr) });
    lemma_written_byte_keeps_domain(mem1, addr, TRAP_OPCODE);
    lemma_written_byte_reads_back(mem1, addr, TRAP_OPCODE);
    assert forall|b: usize| more.contains(b) <==> addrs.contains(b) || b == addr by {
        if more.contains(b) {
            let i = choose|i: int| 0 <= i < more.len() && more[i] == b;
            if i < addrs.len() {
                assert(addrs[i] == b);
            }
        }
        if addrs.contains(b) {
            let i = choose|i: int| 0 <= i < addrs.len() && addrs[i] == b;
            assert(more[i] == b);
        }
        if b == addr {
            assert(more[addrs.len() as int] == b);
        }
    }
    assert forall|i: int| 0 <= i < more.len() implies mem_byte(mem2, #[trigger] more[i])
        == TRAP_OPCODE by {
        if i < addrs.len() {
            assert(addrs[i] == more[i]);
            assert(addrs.contains(more[i]));
            lemma_written_byte_keeps_others(mem1, addr, TRAP_OPCODE, more[i]);
        }
    }
    assert forall|b: usize| !more.contains(b) implies #[trigger] mem_byte(mem2, b) == mem_byte(
        mem0,
        b,
    ) by {
        lemma_written_byte_keeps_others(mem1, addr, TRAP_OPCODE, b);
    }
    assert forall|i: int| 0 <= i < more.len() implies table2[#[trigger] more[i]] == (Restorepoint {
        addr: more[i],
        orig_byte: mem_byte(mem0, more[i]),
    }) by {
        if i < addrs.len() {
            assert(addrs[i] == more[i]);
            assert(addrs.contains(more[i]));
        }
    }
    assert forall|a: usize| table0.contains_key(a) implies #[trigger] table2[a] == table0[a] by {
    }
}

/// Planting traps keeps a well-formed table well formed.
pub proof fn lemma_planted_keeps_table_wf(
    mem0: Map<usize, u64>,
    table0: Map<usize, Restorepoint>,
    addrs: Seq<usize>,
    mem1: Map<usize, u64>,
    table1: Map<usize, Restorepoint>,
)
    requires
        planted(mem0, table0, addrs, mem1, table1),
    ensures
        table_wf(table0) ==> table_wf(table1),
{
    if table_wf(table0) {
        assert forall|a: usize| table1.contains_key(a) implies (#[trigger] table1[a]).addr
            == a by {
            if addrs.contains(a) {
                let i = choose|i: int| 0 <= i < addrs.len() && addrs[i] == a;
                assert(table1[addrs[i]].addr == addrs[i]);
            }
        }
    }
}

/// Restoring a planted trap is a left inverse of planting it: once the
/// recorded byte is written back at `addr`, the byte there is the one that
/// was there before the traps were planted, and no other byte has changed
/// by the restoring.
pub proof fn law_restore_undoes_plant(
    mem0: Map<usize, u64>,
    table0: Map<usize, Restorepoint>,
    addrs: Seq<usize>,
    mem1: Map<usize, u64>,
    table1: Map<usize, Restorepoint>,
    addr: usize,
)
    requires
        planted(mem0, table0, addrs, mem1, table1),
        addrs.contains(addr),
    ensures
        mem_byte(mem_with_byte(mem1, addr, table1[addr].orig_byte), addr) == mem_byte(mem0, addr),
        forall|b: usize|
            b != addr ==> #[trigger] mem_byte(
                mem_with_byte(mem1, addr, table1[addr].orig_byte),
                b,
            ) == mem_byte(mem1, b),
{
    let i = choose|i: int| 0 <= i < addrs.len() && addrs[i] == addr;
    assert(table1[addrs[i]].orig_byte == mem_byte(mem0, addrs[i]));
    lemma_written_byte_reads_back(mem1, addr, table1[addr].orig_byte);
    assert forall|b: usize| b != addr implies #[trigger] mem_byte(
        mem_with_byte(mem1, addr, table1[addr].orig_byte),
        b,
    ) == mem_byte(mem1, b) by {
        lemma_written_byte_keeps_others(mem1, addr, table1[addr].orig_byte, b);
    }
}

/// Planting a single trap and restoring it leaves every byte of memory as
/// it was before.
pub proof fn law_plant_then_restore_is_identity(
    mem0: Map<usize, u64>,
    table0: Map<usize, Restorepoint>,
    mem1: Map<usize, u64>,
    table1: Map<usize, Restorepoint>,
    addr: usize,
)
    requires
        planted(mem0, table0, seq![addr], mem1, table1),
    ensures
        forall|b: usize|
            #[trigger] mem_byte(mem_with_byte(mem1, addr, table1[addr].orig_byte), b) == mem_byte(
                mem0,
                b,
            ),
{
    let addrs = seq![addr];
    assert(addrs[0] == addr);
    assert(addrs.contains(addr));
    law_restore_undoes_plant(mem0, table0, addrs, mem1, table1, addr);
    assert forall|b: usize| #[trigger]
        mem_byte(mem_with_byte(mem1, addr, table1[addr].orig_byte), b) == mem_byte(mem0, b) by {
        if b != addr {
            assert(!addrs.contains(b));
        }
    }
}

/// The readable prefix is no longer than the list, every address in it is
/// readable, and the address right after it, if any, is not.
pub proof fn lemma_readable_prefix(mem: Map<usize, u64>, addrs: Seq<usize>)
    ensures
        readable_prefix(mem, addrs) <= addrs.len(),
        forall|i: int| 0 <= i < readable_prefix(mem, addrs) ==> readable(mem, #[trigger] addrs[i]),
        readable_prefix(mem, addrs) < addrs.len() ==> !readable(
            mem,
            addrs[readable_prefix(mem, addrs) as int],
        ),
    decreases addrs.len(),
{
    if addrs.len() == 0 || !readable(mem, addrs[0]) {
    } else {
        let rest = addrs.skip(1);
        lemma_readable_prefix(mem, rest);
        let k = readable_prefix(mem, rest);
        assert forall|i: int| 0 <= i < 1 + k implies readable(mem, #[trigger] addrs[i]) by {
            if i > 0 {
                assert(addrs[i] == rest[i - 1]);
            }
        }
        if k < rest.len() {
            assert(addrs[1 + k as int] == rest[k as int]);
        }
    }
}

/// The readable prefix is the whole list exactly when every address is
/// readable.
pub proof fn lemma_readable_prefix_full(mem: Map<usize, u64>, addrs: Seq<usize>)
    ensures
        readable_prefix(mem, addrs) == addrs.len() <==> forall|i: int|
            0 <= i < addrs.len() ==> readable(mem, #[trigger] addrs[i]),
{
    lemma_readable_prefix(mem, addrs);
}

/// A count `k` of leading readable addresses followed by an unreadable one,
/// or by the end of the list, is the readable prefix.
pub proof fn lemma_readable_prefix_is(mem: Map<usize, u64>, addrs: Seq<usize>, k: nat)
    requires
        k <= addrs.len(),
        forall|i: int| 0 <= i < k ==> readable(mem, #[trigger] addrs[i]),
        k < addrs.len() ==> !readable(mem, addrs[k as int]),
    ensures
        readable_prefix(mem, addrs) == k,
{
    lemma_readable_prefix(mem, addrs);
    let p = readable_prefix(mem, addrs);
    if p < k {
        assert(readable(mem, addrs[p as int]));
    } else if k < p {
        assert(readable(mem, addrs[k as int]));
    }
}

} // verus!
