//! The processor's identification instruction and its raw results.
//!
//! The library asks the processor, keeps the four registers of each
//! answer, writes them out as a raw dump, and reads the cache line size
//! from the cache-parameter leaves. It stops there: turning the registers
//! of the other leaves into the names of features, caches and topology
//! levels takes the makers' tables of bits and names for each vendor, and
//! those tables are not part of this crate. A `RawCpuid` therefore has a
//! raw line and a line with a caller's own explanation, and no decoder of
//! its own.

use vstd::prelude::*;
use crate::text::{hex_fixed, hex_short, push_hex_fixed, push_hex_short};

verus! {

/// First leaf of the extended range.
pub const EXTENDED_BASE: u32 = 0x8000_0000;

/// The four registers that the identification instruction fills.
#[derive(Debug, Clone, Copy, PartialEq, Eq, Structural)]
pub struct CpuidResult {
    pub eax: u32,
    pub ebx: u32,
    pub ecx: u32,
    pub edx: u32,
}

/// Runs `core::arch::x86_64::__cpuid_count` for a leaf and a sub-leaf and
/// copies the four registers it returns. What they hold depends on the
/// processor, and for some leaves on the core that the thread runs on, so
/// nothing is claimed of them.
#[verifier::external_body]
fn cpuid_count(leaf: u32, sub_leaf: u32) -> (r: CpuidResult) {
    let r = core::arch::x86_64::__cpuid_count(leaf, sub_leaf);
    CpuidResult { eax: r.eax, ebx: r.ebx, ecx: r.ecx, edx: r.edx }
}

/// One query of the identification instruction and what it returned.
#[derive(Debug, Clone, Copy, PartialEq, Eq, Structural)]
pub struct RawCpuid {
    /// The leaf asked for (the value of EAX on entry).
    pub leaf: u32,
    /// The sub-leaf asked for (the value of ECX on entry).
    pub sub_leaf: u32,
    pub result: CpuidResult,
}

/// The line of a raw dump for one query: leaf and sub-leaf, the four
/// registers in hexadecimal, and whatever is to follow them.
pub open spec fn dump_line(raw: RawCpuid, end: Seq<char>) -> Seq<char> {
    seq![' ', ' ', '0', 'x'] + hex_fixed(raw.leaf as int, 8) + seq!['_', 'x'] + hex_short(
        raw.sub_leaf as int,
    ) + seq![':', ' ', ' ', '0', 'x'] + hex_fixed(raw.result.eax as int, 8) + seq![' ', '0', 'x']
        + hex_fixed(raw.result.ebx as int, 8) + seq![' ', '0', 'x'] + hex_fixed(
        raw.result.ecx as int,
        8,
    ) + seq![' ', '0', 'x'] + hex_fixed(raw.result.edx as int, 8) + seq![' '] + end
}

impl RawCpuid {
    /// Queries the processor for a leaf and a sub-leaf.
    pub fn exe(leaf: u32, sub_leaf: u32) -> (raw: RawCpuid)
        ensures
            raw.leaf == leaf,
            raw.sub_leaf == sub_leaf,
    {
        let result = cpuid_count(leaf, sub_leaf);
        RawCpuid { leaf, sub_leaf, result }
    }

    /// The dump line of the query, ending in the given text.
    pub fn result(&self, end_str: &str) -> (line: String)
        ensures
            line@ == dump_line(*self, end_str@),
    {
        let mut line = String::new();
        line.push(' ');
        line.push(' ');
        line.push('0');
        line.push('x');
        push_hex_fixed(&mut line, self.leaf, 8);
        line.push('_');
        line.push('x');
        push_hex_short(&mut line, self.sub_leaf);
        line.push(':');
        line.push(' ');
        line.push(' ');
        line.push('0');
        line.push('x');
        push_hex_fixed(&mut line, self.result.eax, 8);
        line.push(' ');
        line.push('0');
        line.push('x');
        push_hex_fixed(&mut line, self.result.ebx, 8);
        line.push(' ');
        line.push('0');
        line.push('x');
        push_hex_fixed(&mut line, self.result.ecx, 8);
        line.push(' ');
        line.push('0');
        line.push('x');
        push_hex_fixed(&mut line, self.result.edx, 8);
        line.push(' ');
        line.append(end_str);
        line
    }

    /// The dump line of the query on a line of its own.
    pub fn raw_fmt(&self) -> (line: String)
        ensures
            line@ == dump_line(*self, seq!['\n']),
    {
        proof {
            reveal_strlit("\n");
        }
        self.result("\n")
    }

    /// The dump line of the query followed by what was made of the
    /// registers.
    pub fn parse_fmt(&self, parse_string: String) -> (line: String)
        ensures
            line@ == dump_line(*self, parse_string@),
    {
        self.result(parse_string.as_str())
    }
}

/// The kind of cache that a cache-parameters result describes: bits 0 to
/// 4 of EAX. Zero says that there is no cache for the sub-leaf, one is a
/// data cache.
pub open spec fn cache_type_of(r: CpuidResult) -> int {
    r.eax as int % 0x20
}

/// The level of the cache that a cache-parameters result describes: bits
/// 5 to 7 of EAX.
pub open spec fn cache_level_of(r: CpuidResult) -> int {
    (r.eax as int / 0x20) % 0x8
}

/// The line size of the cache that a cache-parameters result describes:
/// one more than bits 0 to 11 of EBX.
pub open spec fn cache_line_of(r: CpuidResult) -> int {
    r.ebx as int % 0x1000 + 1
}

/// The result describes the level-one data cache.
pub open spec fn is_l1_data(r: CpuidResult) -> bool {
    cache_type_of(r) == 1 && cache_level_of(r) == 1
}

/// The leaf of the cache parameters as Intel numbers it.
pub const CACHE_LEAF: u32 = 0x4;

/// The leaf of the cache parameters as AMD numbers it.
pub const CACHE_LEAF_AMD: u32 = 0x8000_001D;

/// Sub-leaves of the cache parameters that are looked at.
pub const CACHE_SUB_LEAVES: u32 = 5;

impl CpuidResult {
    /// Whether this cache-parameters result describes the level-one data
    /// cache.
    pub fn describes_l1_data(&self) -> (b: bool)
        ensures
            b == is_l1_data(*self),
    {
        let eax = self.eax;
        let kind = eax & 0x1F;
        let level = (eax >> 5) & 0x7;
        assert(kind == eax % 0x20) by (bit_vector)
            requires
                kind == eax & 0x1F,
        ;
        assert(level == (eax / 0x20) % 0x8) by (bit_vector)
            requires
                level == (eax >> 5) & 0x7,
        ;
        kind == 1 && level == 1
    }

    /// The line size, in bytes, that this cache-parameters result gives.
    pub fn cache_line_size(&self) -> (n: usize)
        ensures
            n == cache_line_of(*self),
            1 <= n <= 0x1000,
    {
        let ebx = self.ebx;
        let low = ebx & 0xFFF;
        assert(low == ebx % 0x1000) by (bit_vector)
            requires
                low == ebx & 0xFFF,
        ;
        (low + 1) as usize
    }
}

/// The line size that the first result describing the level-one data
/// cache gives, or zero where none describes it.
pub open spec fn l1d_line_size_of(results: Seq<CpuidResult>) -> int
    decreases results.len(),
{
    if results.len() == 0 {
        0
    } else if is_l1_data(results[0]) {
        cache_line_of(results[0])
    } else {
        l1d_line_size_of(results.skip(1))
    }
}

/// The line size found is that of a result which describes the level-one
/// data cache and has no such result before it; it is zero exactly when
/// no result describes that cache.
pub proof fn lemma_l1d_line_size_is_first(results: Seq<CpuidResult>)
    ensures
        l1d_line_size_of(results) == 0 <==> forall|i: int|
            0 <= i < results.len() ==> !is_l1_data(#[trigger] results[i]),
        l1d_line_size_of(results) != 0 ==> exists|i: int|
            0 <= i < results.len() && is_l1_data(#[trigger] results[i]) && l1d_line_size_of(
                results,
            ) == cache_line_of(results[i]) && forall|j: int|
                0 <= j < i ==> !is_l1_data(#[trigger] results[j]),
        0 <= l1d_line_size_of(results) <= 0x1000,
    decreases results.len(),
{
    if results.len() > 0 {
        if !is_l1_data(results[0]) {
            let rest = results.skip(1);
            lemma_l1d_line_size_is_first(rest);
            if l1d_line_size_of(rest) != 0 {
                let i = choose|i: int|
                    0 <= i < rest.len() && is_l1_data(#[trigger] rest[i]) && l1d_line_size_of(rest)
                        == cache_line_of(rest[i]) && forall|j: int|
                        0 <= j < i ==> !is_l1_data(#[trigger] rest[j]);
                assert forall|j: int| 0 <= j < i + 1 implies !is_l1_data(
                    #[trigger] results[j],
                ) by {
                    if j > 0 {
                        assert(results[j] == rest[j - 1]);
                    }
                }
            } else {
                assert forall|i: int| 0 <= i < results.len() implies !is_l1_data(
                    #[trigger] results[i],
                ) by {
                    if i > 0 {
                        assert(results[i] == rest[i - 1]);
                    }
                }
            }
            if forall|i: int| 0 <= i < results.len() ==> !is_l1_data(#[trigger] results[i]) {
                assert forall|i: int| 0 <= i < rest.len() implies !is_l1_data(
                    #[trigger] rest[i],
                ) by {
                    assert(rest[i] == results[i + 1]);
                }
            }
        }
    }
}

/// The line size of the first result that describes the level-one data
/// cache, or zero where none does.
pub fn l1d_line_size_in(results: &Vec<CpuidResult>) -> (n: usize)
    ensures
        n == l1d_line_size_of(results@),
        n <= 0x1000,
{
    let mut k: usize = 0;
    assert(results@.skip(0) =~= results@);
    while k < results.len()
        invariant
            k <= results.len(),
            l1d_line_size_of(results@) == l1d_line_size_of(results@.skip(k as int)),
        decreases results.len() - k,
    {
        assert(results@.skip(k as int).skip(1) =~= results@.skip(k + 1));
        if results[k].describes_l1_data() {
            return results[k].cache_line_size();
        }
        k += 1;
    }
    0
}

/// The queries `(leaf, first)`, `(leaf, first + 1)`, .., `(leaf, last)`.
pub open spec fn sub_leaf_run(leaf: u32, first: u32, last: u32) -> Seq<(u32, u32)> {
    Seq::new((last - first + 1) as nat, |i: int| (leaf, (first + i) as u32))
}

/// The queries `(first, 0)`, `(first + 1, 0)`, .., `(last, 0)`.
pub open spec fn leaf_run(first: u32, last: u32) -> Seq<(u32, u32)> {
    Seq::new((last - first + 1) as nat, |i: int| ((first + i) as u32, 0u32))
}

/// The queries of a full dump, in order: the basic leaves with the
/// sub-leaves of the cache and feature leaves, the extended-state leaf,
/// the topology leaf, and the extended leaves with the sub-leaves of the
/// cache leaf.
pub open spec fn dump_queries() -> Seq<(u32, u32)> {
    leaf_run(0x0, 0x3) + sub_leaf_run(0x4, 0, 4) + leaf_run(0x5, 0x6) + sub_leaf_run(0x7, 0, 1)
        + leaf_run(0x8, 0xC) + sub_leaf_run(0xD, 0x0, 0x2) + sub_leaf_run(0xD, 0x9, 0x9)
        + sub_leaf_run(0xD, 0xB, 0xC) + sub_leaf_run(0x1F, 0, 5) + leaf_run(
        0x8000_0000,
        0x8000_000A,
    ) + leaf_run(0x8000_0019, 0x8000_001C) + sub_leaf_run(0x8000_001D, 0x1, 0x4) + leaf_run(
        0x8000_001E,
        0x8000_0021,
    )
}

fn push_sub_leaf_run(pool: &mut Vec<(u32, u32)>, leaf: u32, first: u32, last: u32)
    requires
        first <= last < u32::MAX,
    ensures
        final(pool)@ == old(pool)@ + sub_leaf_run(leaf, first, last),
{
    let mut sub_leaf = first;
    while sub_leaf <= last
        invariant
            first <= sub_leaf <= last + 1,
            last < u32::MAX,
            pool@ == old(pool)@ + sub_leaf_run(leaf, first, last).take(sub_leaf - first),
        decreases last + 1 - sub_leaf,
    {
        pool.push((leaf, sub_leaf));
        sub_leaf += 1;
    }
    assert(sub_leaf_run(leaf, first, last).take(sub_leaf - first) =~= sub_leaf_run(
        leaf,
        first,
        last,
    ));
}

fn push_leaf_run(pool: &mut Vec<(u32, u32)>, first: u32, last: u32)
    requires
        first <= last < u32::MAX,
    ensures
        final(pool)@ == old(pool)@ + leaf_run(first, last),
{
    let mut leaf = first;
    while leaf <= last
        invariant
            first <= leaf <= last + 1,
            last < u32::MAX,
            pool@ == old(pool)@ + leaf_run(first, last).take(leaf - first),
        decreases last + 1 - leaf,
    {
        pool.push((leaf, 0));
        leaf += 1;
    }
}

/// The queries of a full dump, in order.
pub fn dump_query_list() -> (pool: Vec<(u32, u32)>)
    ensures
        pool@ == dump_queries(),
{
    let mut pool: Vec<(u32, u32)> = Vec::new();
    push_leaf_run(&mut pool, 0x0, 0x3);
    push_sub_leaf_run(&mut pool, 0x4, 0, 4);
    push_leaf_run(&mut pool, 0x5, 0x6);
    push_sub_leaf_run(&mut pool, 0x7, 0, 1);
    push_leaf_run(&mut pool, 0x8, 0xC);
    push_sub_leaf_run(&mut pool, 0xD, 0x0, 0x2);
    push_sub_leaf_run(&mut pool, 0xD, 0x9, 0x9);
    push_sub_leaf_run(&mut pool, 0xD, 0xB, 0xC);
    push_sub_leaf_run(&mut pool, 0x1F, 0, 5);
    push_leaf_run(&mut pool, EXTENDED_BASE, EXTENDED_BASE + 0xA);
    push_leaf_run(&mut pool, EXTENDED_BASE + 0x19, EXTENDED_BASE + 0x1C);
    push_sub_leaf_run(&mut pool, EXTENDED_BASE + 0x1D, 0x1, 0x4);
    push_leaf_run(&mut pool, EXTENDED_BASE + 0x1E, EXTENDED_BASE + 0x21);
    pool
}

/// The pool holds one result for each query, in the order of the
/// queries, each under the leaf and sub-leaf that was asked.
pub open spec fn answers(pool: Seq<RawCpuid>, queries: Seq<(u32, u32)>) -> bool {
    &&& pool.len() == queries.len()
    &&& forall|i: int|
        0 <= i < pool.len() ==> (#[trigger] pool[i]).leaf == queries[i].0 && pool[i].sub_leaf
            == queries[i].1
}

/// The registers of each result of a pool.
pub open spec fn results_of(pool: Seq<RawCpuid>) -> Seq<CpuidResult> {
    pool.map_values(|raw: RawCpuid| raw.result)
}

/// The queries for the cache parameters: the sub-leaves of the leaf as
/// Intel numbers it, then those of the leaf as AMD numbers it.
pub open spec fn cache_queries() -> Seq<(u32, u32)> {
    sub_leaf_run(CACHE_LEAF, 0, (CACHE_SUB_LEAVES - 1) as u32) + sub_leaf_run(
        CACHE_LEAF_AMD,
        0,
        (CACHE_SUB_LEAVES - 1) as u32,
    )
}

/// The queries for the cache parameters, in order.
pub fn cache_query_list() -> (pool: Vec<(u32, u32)>)
    ensures
        pool@ == cache_queries(),
{
    let mut pool: Vec<(u32, u32)> = Vec::new();
    push_sub_leaf_run(&mut pool, CACHE_LEAF, 0, CACHE_SUB_LEAVES - 1);
    push_sub_leaf_run(&mut pool, CACHE_LEAF_AMD, 0, CACHE_SUB_LEAVES - 1);
    pool
}

/// Asks the processor each query of the list, in order.
pub fn run_queries(queries: &Vec<(u32, u32)>) -> (pool: Vec<RawCpuid>)
    ensures
        answers(pool@, queries@),
{
    let mut pool: Vec<RawCpuid> = Vec::new();
    let mut k: usize = 0;
    while k < queries.len()
        invariant
            k <= queries.len(),
            answers(pool@, queries@.take(k as int)),
        decreases queries.len() - k,
    {
        let (leaf, sub_leaf) = queries[k];
        pool.push(RawCpuid::exe(leaf, sub_leaf));
        k += 1;
    }
    assert(queries@.take(queries.len() as int) =~= queries@);
    pool
}

/// The registers of each result of a pool.
pub fn results_in(pool: &Vec<RawCpuid>) -> (results: Vec<CpuidResult>)
    ensures
        results@ == results_of(pool@),
{
    let mut results: Vec<CpuidResult> = Vec::new();
    let mut k: usize = 0;
    while k < pool.len()
        invariant
            k <= pool.len(),
            results@ == results_of(pool@.take(k as int)),
        decreases pool.len() - k,
    {
        results.push(pool[k].result);
        k += 1;
        assert(results@ =~= results_of(pool@.take(k as int)));
    }
    assert(pool@.take(pool.len() as int) =~= pool@);
    results
}

/// Asks the processor for its cache parameters, under both numberings of
/// the leaf, and returns the line size of the level-one data cache, or
/// zero where the processor does not tell. The result is the line size
/// found in the answers to exactly the cache queries, in their order.
pub fn detect_l1d_line_size() -> (n: usize)
    ensures
        exists|pool: Seq<RawCpuid>|
            answers(pool, cache_queries()) && n == l1d_line_size_of(results_of(pool)),
        n <= 0x1000,
{
    let queries = cache_query_list();
    let pool = run_queries(&queries);
    let results = results_in(&pool);
    l1d_line_size_in(&results)
}

/// Runs every query of a full dump, in order.
pub fn cpuid_pool() -> (pool: Vec<RawCpuid>)
    ensures
        answers(pool@, dump_queries()),
{
    let queries = dump_query_list();
    run_queries(&queries)
}

/// The raw dump of the given results: their dump lines one after the
/// other.
pub open spec fn raw_dump_of(pool: Seq<RawCpuid>) -> Seq<char>
    decreases pool.len(),
{
    if pool.len() == 0 {
        Seq::empty()
    } else {
        raw_dump_of(pool.drop_last()) + dump_line(pool.last(), seq!['\n'])
    }
}

/// The raw dump of the given results as text.
pub fn raw_text(pool: &Vec<RawCpuid>) -> (text: String)
    ensures
        text@ == raw_dump_of(pool@),
{
    let mut text = String::new();
    let mut k: usize = 0;
    while k < pool.len()
        invariant
            k <= pool.len(),
            text@ == raw_dump_of(pool@.take(k as int)),
        decreases pool.len() - k,
    {
        let line = pool[k].raw_fmt();
        text.append(line.as_str());
        assert(pool@.take(k + 1).drop_last() =~= pool@.take(k as int));
        k += 1;
    }
    assert(pool@.take(pool.len() as int) =~= pool@);
    text
}

/// Runs every query of a full dump, in order, and returns the raw dump of
/// the answers as text.
pub fn raw_pool() -> (text: String)
    ensures
        exists|pool: Seq<RawCpuid>| answers(pool, dump_queries()) && text@ == raw_dump_of(pool),
{
    let pool = cpuid_pool();
    raw_text(&pool)
}

} // verus!
