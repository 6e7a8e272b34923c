//! The environment variables of a guest.

use vstd::prelude::*;

use crate::api::guest_bytes::append_u32;
use crate::api::types::Errno;
use crate::base::bytes::{self, compare_bytes};
use crate::base::text::TextOrder;

verus! {

/// An environment variable. Neither part holds a zero byte.
pub struct EnvVar {
    pub key: Vec<u8>,
    pub value: Vec<u8>,
}

/// Whether variables are strictly sorted by key.
pub open spec fn sorted_by_key(vars: Seq<EnvVar>) -> bool {
    forall|i: int, j: int|
        0 <= i < j < vars.len() ==> bytes::bytes_before(
            #[trigger] vars[i].key@,
            #[trigger] vars[j].key@,
        )
}

pub open spec fn has_key(vars: Seq<EnvVar>, key: Seq<u8>) -> bool {
    exists|i: int| 0 <= i < vars.len() && #[trigger] vars[i].key@ == key
}

/// The values of variables under their keys.
pub open spec fn env_map(vars: Seq<EnvVar>) -> Map<Seq<u8>, Seq<u8>> {
    Map::new(
        |key: Seq<u8>| has_key(vars, key),
        |key: Seq<u8>|
            vars[choose|i: int| 0 <= i < vars.len() && #[trigger] vars[i].key@ == key].value@,
    )
}

/// The values after variables were set in order.
pub open spec fn env_merge(m: Map<Seq<u8>, Seq<u8>>, vars: Seq<EnvVar>) -> Map<Seq<u8>, Seq<u8>>
    decreases vars.len(),
{
    if vars.len() == 0 {
        m
    } else {
        env_merge(m, vars.drop_last()).insert(vars.last().key@, vars.last().value@)
    }
}

proof fn lemma_env_at(vars: Seq<EnvVar>, i: int)
    requires
        sorted_by_key(vars),
        0 <= i < vars.len(),
    ensures
        env_map(vars).contains_key(vars[i].key@),
        env_map(vars)[vars[i].key@] == vars[i].value@,
{
    let key = vars[i].key@;
    assert(has_key(vars, key));
    let k = choose|k: int| 0 <= k < vars.len() && #[trigger] vars[k].key@ == key;
    bytes::bytes_before_asymmetric(key, key);
    assert(k == i);
}

/// Sets a variable, in place of one with the same key.
fn env_put(vars: &mut Vec<EnvVar>, key: Vec<u8>, value: Vec<u8>)
    requires
        sorted_by_key(old(vars)@),
    ensures
        sorted_by_key(final(vars)@),
        env_map(final(vars)@) == env_map(old(vars)@).insert(key@, value@),
{
    let ghost before = vars@;
    let ghost (k, v) = (key@, value@);
    let mut i: usize = 0;
    while i < vars.len()
        invariant
            vars@ == before,
            key@ == k,
            value@ == v,
            before == old(vars)@,
            sorted_by_key(before),
            i <= before.len(),
            forall|j: int| 0 <= j < i ==> bytes::bytes_before(#[trigger] before[j].key@, k),
        ensures
            i < before.len() ==> bytes::bytes_before(k, before[i as int].key@),
        decreases before.len() - i,
    {
        match compare_bytes(vars[i].key.as_slice(), key.as_slice()) {
            TextOrder::Less => {
                i += 1;
            },
            TextOrder::Equal => {
                vars[i] = EnvVar { key, value };
                proof {
                    let after = vars@;
                    assert forall|j: int| 0 <= j < after.len() implies #[trigger] after[j].key@
                        == before[j].key@ by {}
                    assert(sorted_by_key(after));
                    lemma_env_at(after, i as int);
                    assert forall|q: Seq<u8>| #[trigger]
                        env_map(after).contains_key(q) == env_map(before).insert(k, v).contains_key(
                            q,
                        ) by {
                        if has_key(before, q) {
                            let j = choose|j: int|
                                0 <= j < before.len() && #[trigger] before[j].key@ == q;
                            assert(after[j].key@ == q);
                        }
                        if has_key(after, q) {
                            let j = choose|j: int|
                                0 <= j < after.len() && #[trigger] after[j].key@ == q;
                            assert(before[j].key@ == q);
                        }
                    }
                    assert forall|q: Seq<u8>| env_map(after).contains_key(q) implies #[trigger] env_map(
                        after,
                    )[q] == env_map(before).insert(k, v)[q] by {
                        let j = choose|j: int| 0 <= j < after.len() && #[trigger] after[j].key@ == q;
                        assert(before[j].key@ == q);
                        lemma_env_at(after, j);
                        lemma_env_at(before, j);
                        if j != i {
                            bytes::bytes_before_asymmetric(q, q);
                            assert(after[i as int].key@ == k);
                            assert(after[j] == before[j]);
                        }
                    }
                    assert(env_map(after) =~= env_map(before).insert(k, v));
                }
                return ;
            },
            TextOrder::Greater => {
                break ;
            },
        }
    }
    proof {
        assert forall|j: int| i <= j < before.len() implies bytes::bytes_before(
            k,
            #[trigger] before[j].key@,
        ) by {
            if j > i {
                bytes::bytes_before_transitive(k, before[i as int].key@, before[j].key@);
            }
        }
    }
    vars.insert(i, EnvVar { key, value });
    proof {
        let after = vars@;
        assert(after =~= before.insert(i as int, after[i as int]));
        assert forall|j: int| 0 <= j < after.len() && j != i implies #[trigger] after[j] == before[if j
            < i {
            j
        } else {
            j - 1
        }] by {}
        assert forall|j: int| 0 <= j < before.len() implies #[trigger] before[j] == after[if j < i {
            j
        } else {
            j + 1
        }] by {}
        assert forall|p: int, q: int| 0 <= p < q < after.len() implies bytes::bytes_before(
            #[trigger] after[p].key@,
            #[trigger] after[q].key@,
        ) by {
            assert(after[i as int].key@ == k);
            if p < i {
                assert(after[p] == before[p]);
            } else if p > i {
                assert(after[p] == before[p - 1]);
            }
            if q < i {
                assert(after[q] == before[q]);
                assert(bytes::bytes_before(before[p].key@, before[q].key@));
            } else if q > i {
                assert(after[q] == before[q - 1]);
                if p < i {
                    assert(bytes::bytes_before(before[p].key@, before[q - 1].key@));
                } else if p == i {
                    assert(bytes::bytes_before(k, before[q - 1].key@));
                } else {
                    assert(bytes::bytes_before(before[p - 1].key@, before[q - 1].key@));
                }
            } else {
                assert(bytes::bytes_before(before[p].key@, k));
            }
        }
        bytes::bytes_before_asymmetric(k, k);
        lemma_env_at(after, i as int);
        assert forall|q: Seq<u8>| #[trigger]
            env_map(after).contains_key(q) == env_map(before).insert(k, v).contains_key(q) by {
            if has_key(before, q) {
                let j = choose|j: int| 0 <= j < before.len() && #[trigger] before[j].key@ == q;
                assert(after[if j < i {
                    j
                } else {
                    j + 1
                }].key@ == q);
            }
            if has_key(after, q) && q != k {
                let j = choose|j: int| 0 <= j < after.len() && #[trigger] after[j].key@ == q;
                assert(before[if j < i {
                    j
                } else {
                    j - 1
                }].key@ == q);
            }
        }
        assert forall|q: Seq<u8>| env_map(after).contains_key(q) implies #[trigger] env_map(after)[q]
            == env_map(before).insert(k, v)[q] by {
            if q != k {
                let j = choose|j: int| 0 <= j < after.len() && #[trigger] after[j].key@ == q;
                let j2 = if j < i {
                    j
                } else {
                    j - 1
                };
                assert(after[j] == before[j2]);
                lemma_env_at(after, j);
                lemma_env_at(before, j2);
            }
        }
        assert(env_map(after) =~= env_map(before).insert(k, v));
    }
}

/// Sets variables in order.
fn env_put_all(vars: &mut Vec<EnvVar>, more: Vec<EnvVar>)
    requires
        sorted_by_key(old(vars)@),
    ensures
        sorted_by_key(final(vars)@),
        env_map(final(vars)@) == env_merge(env_map(old(vars)@), more@),
{
    let ghost start = env_map(vars@);
    let ghost all = more@;
    for var in it: more
        invariant
            it.seq() == all,
            sorted_by_key(vars@),
            env_map(vars@) == env_merge(start, all.take(it.index() as int)),
    {
        assert(all.take(it.index() + 1).drop_last() =~= all.take(it.index() as int));
        env_put(vars, var.key, var.value);
    }
    assert(all.take(all.len() as int) =~= all);
}

/// The variables of a guest: the defaults, with those that the caller gives set over them.
pub fn merge_environment(defaults: Vec<EnvVar>, overrides: Vec<EnvVar>) -> (r: Vec<EnvVar>)
    ensures
        sorted_by_key(r@),
        env_map(r@) == env_merge(env_merge(Map::empty(), defaults@), overrides@),
{
    let mut vars: Vec<EnvVar> = Vec::new();
    assert(env_map(vars@) =~= Map::<Seq<u8>, Seq<u8>>::empty());
    env_put_all(&mut vars, defaults);
    env_put_all(&mut vars, overrides);
    vars
}

/// A variable that the caller gives has the caller's value, whatever the default is.
pub proof fn overrides_win(m: Map<Seq<u8>, Seq<u8>>, overrides: Seq<EnvVar>, i: int)
    requires
        0 <= i < overrides.len(),
        forall|j: int| i < j < overrides.len() ==> (#[trigger] overrides[j]).key@ != overrides[i].key@,
    ensures
        env_merge(m, overrides)[overrides[i].key@] == overrides[i].value@,
        env_merge(m, overrides).contains_key(overrides[i].key@),
    decreases overrides.len(),
{
    if i < overrides.len() - 1 {
        assert(overrides.drop_last()[i] == overrides[i]);
        overrides_win(m, overrides.drop_last(), i);
        assert(overrides[overrides.len() - 1].key@ != overrides[i].key@);
    }
}

/// How a variable stands in memory: the key, an equals sign, the value, and a zero byte.
pub open spec fn var_bytes(var: EnvVar) -> Seq<u8> {
    var.key@ + seq![0x3du8] + var.value@ + seq![0u8]
}

/// The variables in memory, one after the other.
pub open spec fn env_block(vars: Seq<EnvVar>) -> Seq<u8>
    decreases vars.len(),
{
    if vars.len() == 0 {
        Seq::empty()
    } else {
        env_block(vars.drop_last()) + var_bytes(vars.last())
    }
}

/// The addresses of the variables of a block, as numbers of four bytes.
pub open spec fn env_table(vars: Seq<EnvVar>, block: u32) -> Seq<u8>
    decreases vars.len(),
{
    if vars.len() == 0 {
        Seq::empty()
    } else {
        env_table(vars.drop_last(), block) + vstd::bytes::spec_u32_to_le_bytes(
            (block + env_block(vars.drop_last()).len()) as u32,
        )
    }
}

proof fn lemma_block_grows(vars: Seq<EnvVar>, i: int)
    requires
        0 <= i <= vars.len(),
    ensures
        env_block(vars.take(i)).len() <= env_block(vars).len(),
    decreases vars.len() - i,
{
    if i < vars.len() {
        assert(vars.take(i + 1).drop_last() =~= vars.take(i));
        lemma_block_grows(vars, i + 1);
    } else {
        assert(vars.take(i) =~= vars);
    }
}

/// How many variables there are, and how many bytes they take, where four bytes can hold both.
pub fn environ_sizes_get(vars: &Vec<EnvVar>) -> (r: Result<(u32, u32), Errno>)
    ensures
        r == if vars@.len() <= u32::MAX && env_block(vars@).len() <= u32::MAX {
            Ok((vars@.len() as u32, env_block(vars@).len() as u32))
        } else {
            Err(Errno::Overflow)
        },
{
    let count: usize = vars.len();
    if count > 0xffff_ffff {
        return Err(Errno::Overflow);
    }
    let mut size: u32 = 0;
    let mut i: usize = 0;
    assert(vars@.take(0) =~= Seq::<EnvVar>::empty());
    while i < count
        invariant
            i <= count,
            count == vars@.len(),
            count <= u32::MAX,
            size == env_block(vars@.take(i as int)).len(),
        decreases count - i,
    {
        proof {
            assert(vars@.take(i + 1).drop_last() =~= vars@.take(i as int));
            lemma_block_grows(vars@, i + 1);
        }
        let key_len: usize = vars[i].key.len();
        let value_len: usize = vars[i].value.len();
        if key_len > 0xffff_ffff || value_len > 0xffff_fffe {
            return Err(Errno::Overflow);
        }
        size = match size.checked_add(key_len as u32) {
            Some(size) => match size.checked_add(1) {
                Some(size) => match size.checked_add(value_len as u32 + 1) {
                    Some(size) => size,
                    None => {
                        return Err(Errno::Overflow);
                    },
                },
                None => {
                    return Err(Errno::Overflow);
                },
            },
            None => {
                return Err(Errno::Overflow);
            },
        };
        i += 1;
    }
    assert(vars@.take(count as int) =~= vars@);
    Ok((count as u32, size))
}

/// Where the table and the block of variables would go on, after the variables that were written.
/// Addresses have four bytes.
pub open spec fn env_end(vars: Seq<EnvVar>, table: u32, block: u32) -> Result<(u32, u32), Errno>
    decreases vars.len(),
{
    if vars.len() == 0 {
        Ok((table, block))
    } else {
        match env_end(vars.drop_last(), table, block) {
            Err(e) => Err(e),
            Ok((t, b)) => {
                let var = vars.last();
                if var.key@.len() > u32::MAX || var.value@.len() + 1 > u32::MAX {
                    Err(Errno::Overflow)
                } else if b + var_bytes(var).len() > u32::MAX || t + 4 > u32::MAX {
                    Err(Errno::Inval)
                } else {
                    Ok(((t + 4) as u32, (b + var_bytes(var).len()) as u32))
                }
            },
        }
    }
}

proof fn lemma_env_end_prefix(vars: Seq<EnvVar>, i: int, table: u32, block: u32)
    requires
        0 <= i <= vars.len(),
        env_end(vars.take(i), table, block) is Err,
    ensures
        env_end(vars, table, block) == env_end(vars.take(i), table, block),
    decreases vars.len() - i,
{
    if i < vars.len() {
        assert(vars.take(i + 1).drop_last() =~= vars.take(i));
        lemma_env_end_prefix(vars, i + 1, table, block);
    } else {
        assert(vars.take(i) =~= vars);
    }
}

/// What to write into the memory of a guest: the table of addresses at `table`, and the variables
/// at `block`.
pub fn environ_get(vars: &Vec<EnvVar>, table: u32, block: u32) -> (r: Result<(Vec<u8>, Vec<u8>), Errno>)
    ensures
        match r {
            Ok((addresses, contents)) => {
                &&& env_end(vars@, table, block) is Ok
                &&& addresses@ == env_table(vars@, block)
                &&& contents@ == env_block(vars@)
            },
            Err(e) => env_end(vars@, table, block) == Err::<(u32, u32), Errno>(e),
        },
{
    let mut addresses: Vec<u8> = Vec::new();
    let mut contents: Vec<u8> = Vec::new();
    let mut t: u32 = table;
    let mut b: u32 = block;
    let mut i: usize = 0;
    assert(vars@.take(0) =~= Seq::<EnvVar>::empty());
    while i < vars.len()
        invariant
            i <= vars@.len(),
            env_end(vars@.take(i as int), table, block) == Ok::<(u32, u32), Errno>((t, b)),
            addresses@ == env_table(vars@.take(i as int), block),
            contents@ == env_block(vars@.take(i as int)),
            b == block + contents@.len(),
        decreases vars@.len() - i,
    {
        proof {
            assert(vars@.take(i + 1).drop_last() =~= vars@.take(i as int));
            if env_end(vars@.take(i + 1), table, block) is Err {
                lemma_env_end_prefix(vars@, i + 1, table, block);
            }
        }
        let key_len: usize = vars[i].key.len();
        let value_len: usize = vars[i].value.len();
        if key_len > 0xffff_ffff || value_len > 0xffff_fffe {
            return Err(Errno::Overflow);
        }
        append_u32(&mut addresses, b);
        let end: u64 = b as u64 + key_len as u64 + value_len as u64 + 2;
        if end > 0xffff_ffff || t > 0xffff_fffb {
            return Err(Errno::Inval);
        }
        let mut key = vars[i].key.clone();
        let mut value = vars[i].value.clone();
        proof {
            assert(key@ =~= vars@[i as int].key@);
            assert(value@ =~= vars@[i as int].value@);
        }
        let ghost before = contents@;
        contents.append(&mut key);
        contents.push(0x3d);
        contents.append(&mut value);
        contents.push(0);
        assert(contents@ =~= before + var_bytes(vars@[i as int]));
        b = end as u32;
        t += 4;
        i += 1;
    }
    assert(vars@.take(vars@.len() as int) =~= vars@);
    Ok((addresses, contents))
}

/// Variables that are set change no other one, and nothing is set that none of them names.
pub proof fn other_variables_stay(m: Map<Seq<u8>, Seq<u8>>, vars: Seq<EnvVar>, key: Seq<u8>)
    requires
        forall|i: int| 0 <= i < vars.len() ==> (#[trigger] vars[i]).key@ != key,
    ensures
        env_merge(m, vars).contains_key(key) == m.contains_key(key),
        m.contains_key(key) ==> env_merge(m, vars)[key] == m[key],
    decreases vars.len(),
{
    if vars.len() > 0 {
        let before = vars.drop_last();
        assert forall|i: int| 0 <= i < before.len() implies (#[trigger] before[i]).key@ != key by {
            assert(vars[i].key@ != key);
        }
        other_variables_stay(m, before, key);
        assert(vars[vars.len() - 1].key@ != key);
    }
}

/// In a sorted list each variable has the value that is listed, and only those are there that are listed.
pub proof fn listed_variables_are_set(vars: Seq<EnvVar>, key: Seq<u8>)
    requires
        sorted_by_key(vars),
    ensures
        forall|i: int|
            0 <= i < vars.len() ==> env_map(vars).contains_key((#[trigger] vars[i]).key@) && env_map(vars)[vars[i].key@]
                == vars[i].value@,
        env_map(vars).contains_key(key) ==> exists|i: int| 0 <= i < vars.len() && (#[trigger] vars[i]).key@ == key,
{
    assert forall|i: int| 0 <= i < vars.len() implies env_map(vars).contains_key((#[trigger] vars[i]).key@)
        && env_map(vars)[vars[i].key@] == vars[i].value@ by {
        lemma_env_at(vars, i);
    }
}

/// Variables come in the order of their keys, and no key comes twice.
pub proof fn variables_are_in_order(vars: Seq<EnvVar>, i: int, j: int)
    requires
        sorted_by_key(vars),
        0 <= i < j < vars.len(),
    ensures
        bytes::bytes_before(vars[i].key@, vars[j].key@),
        vars[i].key@ != vars[j].key@,
{
    bytes::bytes_before_asymmetric(vars[i].key@, vars[i].key@);
}

/// How many bytes variables take in memory: two for each besides the key and the value.
pub open spec fn bytes_taken(vars: Seq<EnvVar>) -> nat
    decreases vars.len(),
{
    if vars.len() == 0 {
        0
    } else {
        bytes_taken(vars.drop_last()) + vars.last().key@.len() + vars.last().value@.len() + 2
    }
}

/// A guest finds each variable where the table says: at the address there stand the key, an equals sign,
/// the value and a zero byte.
pub proof fn variables_are_found_at_their_addresses(vars: Seq<EnvVar>, block: u32, i: int)
    requires
        0 <= i < vars.len(),
        block + env_block(vars).len() <= u32::MAX,
    ensures
        env_table(vars, block).len() == 4 * vars.len(),
        env_block(vars).len() == bytes_taken(vars),
        ({
            let var = vars[i];
            let at = bytes_taken(vars.take(i)) as int;
            let (k, v) = (var.key@.len() as int, var.value@.len() as int);
            &&& vstd::bytes::spec_u32_from_le_bytes(env_table(vars, block).subrange(4 * i, 4 * i + 4)) == block + at
            &&& at + k + v + 2 <= env_block(vars).len()
            &&& env_block(vars).subrange(at, at + k) == var.key@
            &&& env_block(vars)[at + k] == 0x3d
            &&& env_block(vars).subrange(at + k + 1, at + k + 1 + v) == var.value@
            &&& env_block(vars)[at + k + 1 + v] == 0
        }),
    decreases vars.len(),
{
    vstd::bytes::lemma_auto_spec_u32_to_from_le_bytes();
    let before = vars.drop_last();
    let var = vars[i];
    let at = bytes_taken(vars.take(i)) as int;
    let (k, v) = (var.key@.len() as int, var.value@.len() as int);
    let whole = env_block(vars);
    let table = env_table(vars, block);
    lemma_taken(before, block);
    lemma_taken(vars, block);
    if i < before.len() {
        variables_are_found_at_their_addresses(before, block, i);
        assert(before.take(i) =~= vars.take(i));
        assert(before[i] == vars[i]);
        let part = env_block(before);
        assert(table.subrange(4 * i, 4 * i + 4) =~= env_table(before, block).subrange(4 * i, 4 * i + 4));
        assert(whole.subrange(at, at + k) =~= part.subrange(at, at + k));
        assert(whole[at + k] == part[at + k]);
        assert(whole.subrange(at + k + 1, at + k + 1 + v) =~= part.subrange(at + k + 1, at + k + 1 + v));
        assert(whole[at + k + 1 + v] == part[at + k + 1 + v]);
    } else {
        assert(vars.take(i) =~= before);
        assert(table.subrange(4 * i, 4 * i + 4) =~= vstd::bytes::spec_u32_to_le_bytes((block + at) as u32));
        assert(whole.subrange(at, at + k) =~= var.key@);
        assert(whole.subrange(at + k + 1, at + k + 1 + v) =~= var.value@);
    }
}

proof fn lemma_taken(vars: Seq<EnvVar>, block: u32)
    ensures
        env_table(vars, block).len() == 4 * vars.len(),
        env_block(vars).len() == bytes_taken(vars),
    decreases vars.len(),
{
    vstd::bytes::lemma_auto_spec_u32_to_from_le_bytes();
    if vars.len() > 0 {
        lemma_taken(vars.drop_last(), block);
    }
}

/// Variables can be written exactly where each has a length that can be told and neither the table nor the
/// block runs over the end of the addresses. The table goes on behind four bytes for each.
pub proof fn variables_end_behind_the_last(vars: Seq<EnvVar>, table: u32, block: u32)
    ensures
        match env_end(vars, table, block) {
            Ok((t, b)) => t == table + 4 * vars.len() && b == block + env_block(vars).len(),
            Err(e) => {
                ||| e == Errno::Overflow && exists|i: int|
                    0 <= i < vars.len() && ((#[trigger] vars[i]).key@.len() > u32::MAX || vars[i].value@.len() + 1
                        > u32::MAX)
                ||| e == Errno::Inval && (table + 4 * vars.len() > u32::MAX || block + env_block(vars).len() > u32::MAX)
            },
        },
    decreases vars.len(),
{
    lemma_taken(vars, block);
    if vars.len() > 0 {
        let before = vars.drop_last();
        variables_end_behind_the_last(before, table, block);
        lemma_taken(before, block);
        if env_end(before, table, block) == Err::<(u32, u32), Errno>(Errno::Overflow) {
            if exists|i: int|
                0 <= i < before.len() && ((#[trigger] before[i]).key@.len() > u32::MAX || before[i].value@.len() + 1
                    > u32::MAX) {
                let i = choose|i: int|
                    0 <= i < before.len() && ((#[trigger] before[i]).key@.len() > u32::MAX || before[i].value@.len()
                        + 1 > u32::MAX);
                assert(vars[i] == before[i]);
            }
        }
        assert(vars[vars.len() - 1] == vars.last());
    }
}

} // verus!
