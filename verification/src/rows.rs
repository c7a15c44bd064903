//! The row-space model of generation units, and the laws that make
//! partitioned generation sound.
//!
//! The row-generation collaborator assigns to unit `(part, total_parts)` of
//! a table with `total` rows the slice that starts at
//! `(part - 1) * (total / total_parts)` and holds `total / total_parts`
//! rows, the last part also taking the remainder. Rendering is a pure
//! per-row function, so the laws below are stated over an arbitrary per-row
//! rendering and carry over to every output format.

use vstd::prelude::*;

use crate::plan::{spec_plan_units, spec_validate, GenerationUnit};
use crate::table::OutputFormat;

verus! {

/// The first row (0-based) of unit `part` of `parts` over `total` rows.
pub open spec fn spec_part_start(part: int, parts: int, total: int) -> int {
    (part - 1) * (total / parts)
}

/// How many rows unit `part` of `parts` over `total` rows holds: an even
/// share, plus the remainder for the last part.
pub open spec fn spec_part_rows(part: int, parts: int, total: int) -> int {
    total / parts + if part == parts {
        total % parts
    } else {
        0
    }
}

/// The row just past unit `part`, with unit 0 ending before row 0.
pub open spec fn spec_part_end(part: int, parts: int, total: int) -> int {
    if part <= 0 {
        0
    } else {
        spec_part_start(part, parts, total) + spec_part_rows(part, parts, total)
    }
}

/// Part slices are contiguous: each unit begins exactly where the previous
/// one ends, the first begins at row 0, and the last ends at row `total`.
pub proof fn lemma_part_ranges_contiguous(parts: int, total: int)
    requires
        parts >= 1,
        total >= 0,
    ensures
        spec_part_start(1, parts, total) == 0,
        forall|p: int|
            1 <= p <= parts ==> spec_part_start(p, parts, total) == spec_part_end(
                p - 1,
                parts,
                total,
            ),
        spec_part_end(parts, parts, total) == total,
        forall|p: int| 1 <= p <= parts ==> spec_part_rows(p, parts, total) >= 0,
        forall|p: int| 1 <= p <= parts ==> spec_part_start(p, parts, total) >= 0,
{
    let q = total / parts;
    let r = total % parts;
    vstd::arithmetic::div_mod::lemma_div_pos_is_pos(total, parts);
    vstd::arithmetic::div_mod::lemma_mod_bound(total, parts);
    vstd::arithmetic::div_mod::lemma_fundamental_div_mod(total, parts);
    assert forall|p: int| 1 <= p <= parts implies spec_part_start(p, parts, total)
        == spec_part_end(p - 1, parts, total) by {
        vstd::arithmetic::mul::lemma_mul_basics(q);
        if p >= 2 {
            assert((p - 1) * q == (p - 2) * q + q) by {
                vstd::arithmetic::mul::lemma_mul_is_distributive_sub_other_way(q, p - 1, 1);
                vstd::arithmetic::mul::lemma_mul_basics(q);
            }
        }
    }
    assert(spec_part_end(parts, parts, total) == total) by {
        vstd::arithmetic::mul::lemma_mul_basics(q);
        assert((parts - 1) * q + q == parts * q) by {
            vstd::arithmetic::mul::lemma_mul_is_distributive_sub_other_way(q, parts, 1);
            vstd::arithmetic::mul::lemma_mul_basics(q);
        }
        assert(parts * q + r == total) by {
            vstd::arithmetic::div_mod::lemma_fundamental_div_mod(total, parts);
        }
    }
    assert forall|p: int| 1 <= p <= parts implies spec_part_start(p, parts, total) >= 0 by {
        vstd::arithmetic::mul::lemma_mul_nonnegative(p - 1, q);
    }
}

/// The bytes a pure per-row rendering produces for `count` rows starting at
/// row `start`, in row order.
pub open spec fn spec_rows_bytes(render: spec_fn(int) -> Seq<u8>, start: int, count: int) -> Seq<
    u8,
>
    decreases count,
{
    if count <= 0 {
        Seq::empty()
    } else {
        render(start) + spec_rows_bytes(render, start + 1, count - 1)
    }
}

/// Rendering a row range splits at any interior point.
pub proof fn lemma_rows_bytes_split(render: spec_fn(int) -> Seq<u8>, start: int, a: int, b: int)
    requires
        a >= 0,
        b >= 0,
    ensures
        spec_rows_bytes(render, start, a + b) == spec_rows_bytes(render, start, a)
            + spec_rows_bytes(render, start + a, b),
    decreases a,
{
    if a <= 0 {
        assert(spec_rows_bytes(render, start, a + b) =~= spec_rows_bytes(render, start, a)
            + spec_rows_bytes(render, start + a, b));
    } else {
        lemma_rows_bytes_split(render, start + 1, a - 1, b);
        assert(spec_rows_bytes(render, start, a + b) =~= spec_rows_bytes(render, start, a)
            + spec_rows_bytes(render, start + a, b));
    }
}

/// The bytes produced by rendering units `1..=upto` of `parts`, in part
/// order.
pub open spec fn spec_parts_bytes(
    render: spec_fn(int) -> Seq<u8>,
    parts: int,
    total: int,
    upto: int,
) -> Seq<u8>
    decreases upto,
{
    if upto <= 0 {
        Seq::empty()
    } else {
        spec_parts_bytes(render, parts, total, upto - 1) + spec_rows_bytes(
            render,
            spec_part_start(upto, parts, total),
            spec_part_rows(upto, parts, total),
        )
    }
}

proof fn lemma_parts_bytes_prefix(render: spec_fn(int) -> Seq<u8>, parts: int, total: int, k: int)
    requires
        parts >= 1,
        total >= 0,
        0 <= k <= parts,
    ensures
        spec_parts_bytes(render, parts, total, k) == spec_rows_bytes(
            render,
            0,
            spec_part_end(k, parts, total),
        ),
    decreases k,
{
    lemma_part_ranges_contiguous(parts, total);
    if k <= 0 {
    } else {
        lemma_parts_bytes_prefix(render, parts, total, k - 1);
        let s = spec_part_start(k, parts, total);
        let n = spec_part_rows(k, parts, total);
        lemma_rows_bytes_split(render, 0, s, n);
    }
}

/// Partition completeness: concatenating the renderings of parts
/// `1..=parts`, in part order, is the rendering of the whole table, for any
/// pure per-row rendering, any number of parts, and any total row count.
pub proof fn lemma_partition_completeness(render: spec_fn(int) -> Seq<u8>, parts: int, total: int)
    requires
        parts >= 1,
        total >= 0,
    ensures
        spec_parts_bytes(render, parts, total, parts) == spec_rows_bytes(render, 0, total),
{
    lemma_parts_bytes_prefix(render, parts, total, parts);
    lemma_part_ranges_contiguous(parts, total);
}

/// Idempotence: the bytes of a request are a function of the request
/// alone, so any two runs of the same validated request over the same pure
/// per-row rendering produce identical bytes.
pub proof fn lemma_identical_reruns(
    render: spec_fn(int) -> Seq<u8>,
    format: OutputFormat,
    part: Option<u64>,
    parts: Option<u64>,
    scale_milli: u64,
    total: int,
    out1: Seq<u8>,
    out2: Seq<u8>,
)
    requires
        spec_validate(part, parts, scale_milli) is Ok,
        total >= 0,
        ({
            let (p, tp) = spec_validate(part, parts, scale_milli)->Ok_0;
            out1 == spec_units_bytes(render, spec_plan_units(format, p, tp, scale_milli), total)
                && out2 == spec_units_bytes(
                render,
                spec_plan_units(format, p, tp, scale_milli),
                total,
            )
        }),
    ensures
        out1 == out2,
{
}

/// The bytes produced by rendering a sequence of units in order.
pub open spec fn spec_units_bytes(
    render: spec_fn(int) -> Seq<u8>,
    units: Seq<GenerationUnit>,
    total: int,
) -> Seq<u8>
    decreases units.len(),
{
    if units.len() == 0 {
        Seq::empty()
    } else {
        spec_units_bytes(render, units.drop_last(), total) + spec_rows_bytes(
            render,
            spec_part_start(units.last().part as int, units.last().total_parts as int, total),
            spec_part_rows(units.last().part as int, units.last().total_parts as int, total),
        )
    }
}

proof fn lemma_units_bytes_all_parts(
    render: spec_fn(int) -> Seq<u8>,
    units: Seq<GenerationUnit>,
    c: int,
    total: int,
    k: int,
)
    requires
        c >= 1,
        total >= 0,
        0 <= k <= c,
        units.len() == k,
        forall|i: int|
            0 <= i < k ==> units[i] == (GenerationUnit {
                part: (i + 1) as u64,
                total_parts: c as u64,
            }),
        c <= u64::MAX,
    ensures
        spec_units_bytes(render, units, total) == spec_parts_bytes(render, c, total, k),
    decreases k,
{
    if k > 0 {
        lemma_units_bytes_all_parts(render, units.drop_last(), c, total, k - 1);
    }
}

/// A plan's units render to exactly the bytes of the request they answer:
/// concatenating the units' renderings in plan order is the rendering of
/// the requested part itself, for any pure per-row rendering and any total
/// row count.
pub proof fn lemma_plan_units_render_request(
    render: spec_fn(int) -> Seq<u8>,
    format: OutputFormat,
    part: Option<u64>,
    parts: Option<u64>,
    scale_milli: u64,
    total: int,
)
    requires
        spec_validate(part, parts, scale_milli) is Ok,
        total >= 0,
    ensures
        ({
            let (p, tp) = spec_validate(part, parts, scale_milli)->Ok_0;
            spec_units_bytes(render, spec_plan_units(format, p, tp, scale_milli), total)
                == spec_rows_bytes(
                render,
                spec_part_start(p as int, tp as int, total),
                spec_part_rows(p as int, tp as int, total),
            )
        }),
{
    let (p, tp) = spec_validate(part, parts, scale_milli)->Ok_0;
    let units = spec_plan_units(format, p, tp, scale_milli);
    if format == OutputFormat::Parquet && tp == 1 {
        let c = crate::plan::spec_parquet_unit_count(scale_milli as int);
        assert(1 <= c <= 32767);
        lemma_units_bytes_all_parts(render, units, c, total, c);
        lemma_partition_completeness(render, c, total);
        assert(total / 1 == total && total % 1 == 0) by {
            vstd::arithmetic::div_mod::lemma_fundamental_div_mod(total, 1);
            vstd::arithmetic::div_mod::lemma_mod_bound(total, 1);
            vstd::arithmetic::mul::lemma_mul_basics(total / 1);
        }
        assert(spec_part_start(p as int, 1, total) == 0) by {
            vstd::arithmetic::mul::lemma_mul_basics(total / 1);
        }
        assert(spec_part_rows(p as int, 1, total) == total);
        assert(spec_units_bytes(render, units, total) =~= spec_rows_bytes(
            render,
            spec_part_start(p as int, tp as int, total),
            spec_part_rows(p as int, tp as int, total),
        ));
    } else {
        let x = spec_rows_bytes(
            render,
            spec_part_start(p as int, tp as int, total),
            spec_part_rows(p as int, tp as int, total),
        );
        assert(units.len() == 1);
        assert(units.drop_last() =~= Seq::<GenerationUnit>::empty());
        assert(units.last() == (GenerationUnit { part: p, total_parts: tp }));
        assert(spec_units_bytes(render, units.drop_last(), total) == Seq::<u8>::empty());
        assert(spec_units_bytes(render, units, total) == Seq::<u8>::empty() + x);
        assert(Seq::<u8>::empty() + x =~= x);
    }
}

} // verus!
