//! The zone table: partition ranges and row-group sizing for the one table
//! sourced from an external, pre-existing dataset.
//!
//! The zone table is not regenerated row by row; a remote query engine
//! fetches and filters it. Because its true row count is only knowable
//! after a full scan, planning rests on pre-measured statistics keyed by
//! scale-factor bucket, with linear sub-scaling below scale factor one.
//! Scale factors are carried as integer thousandths, as in the plan module.

use vstd::prelude::*;

use crate::decimal::{append_decimal, spec_decimal};
use crate::plan::DEFAULT_PARQUET_ROW_GROUP_BYTES;
use crate::table::OutputFormat;

verus! {

/// Measured size in bytes of the zone dataset just below scale factor one;
/// scales linearly below that point.
pub const ZONE_BASE_SIZE_BYTES: u64 = 987842478;

/// Measured row count of the zone dataset just below scale factor one.
pub const ZONE_BASE_ROWS: u64 = 156095;

/// The measured `(dataset_size_bytes, dataset_total_rows)` statistics for a
/// scale factor, by bucket: below one the base statistics scale linearly
/// (rows rounding up), then each bucket up to ten, a hundred, a thousand,
/// and beyond holds its own measured pair.
pub open spec fn spec_zone_stats(scale_milli: int) -> (int, int) {
    if scale_milli < 1000 {
        (
            (ZONE_BASE_SIZE_BYTES as int * scale_milli) / 1000,
            (ZONE_BASE_ROWS as int * scale_milli + 999) / 1000,
        )
    } else if scale_milli < 10000 {
        (1524713390, 156095)
    } else if scale_milli < 100000 {
        (2244120412, 454710)
    } else if scale_milli < 1000000 {
        (6098853560, 1033456)
    } else {
        (6582037381, 1033675)
    }
}

/// Returns the measured `(dataset_size_bytes, dataset_total_rows)` for the
/// given scale factor.
pub fn get_zone_table_stats(scale_milli: u64) -> (r: (u64, u64))
    requires
        scale_milli >= 1,
    ensures
        r.0 == spec_zone_stats(scale_milli as int).0,
        r.1 == spec_zone_stats(scale_milli as int).1,
        r.0 >= 1,
        r.1 >= 1,
{
    if scale_milli < 1000 {
        let size: u64 = (ZONE_BASE_SIZE_BYTES * scale_milli) / 1000;
        let rows: u64 = (ZONE_BASE_ROWS * scale_milli + 999) / 1000;
        assert(size >= 1) by {
            assert(ZONE_BASE_SIZE_BYTES as int * scale_milli >= ZONE_BASE_SIZE_BYTES as int) by {
                vstd::arithmetic::mul::lemma_mul_inequality(1, scale_milli as int, ZONE_BASE_SIZE_BYTES as int);
                vstd::arithmetic::mul::lemma_mul_basics(ZONE_BASE_SIZE_BYTES as int);
                vstd::arithmetic::mul::lemma_mul_is_commutative(ZONE_BASE_SIZE_BYTES as int, scale_milli as int);
            }
            vstd::arithmetic::div_mod::lemma_div_is_ordered(
                1000,
                ZONE_BASE_SIZE_BYTES as int * scale_milli,
                1000,
            );
        }
        assert(rows >= 1) by {
            assert(ZONE_BASE_ROWS as int * scale_milli >= ZONE_BASE_ROWS as int) by {
                vstd::arithmetic::mul::lemma_mul_inequality(1, scale_milli as int, ZONE_BASE_ROWS as int);
                vstd::arithmetic::mul::lemma_mul_basics(ZONE_BASE_ROWS as int);
                vstd::arithmetic::mul::lemma_mul_is_commutative(ZONE_BASE_ROWS as int, scale_milli as int);
            }
            vstd::arithmetic::div_mod::lemma_div_is_ordered(
                1000,
                ZONE_BASE_ROWS as int * scale_milli + 999,
                1000,
            );
        }
        (size, rows)
    } else if scale_milli < 10000 {
        (1524713390, 156095)
    } else if scale_milli < 100000 {
        (2244120412, 454710)
    } else if scale_milli < 1000000 {
        (6098853560, 1033456)
    } else {
        (6582037381, 1033675)
    }
}

/// The rows-per-group target computed from measured statistics: the target
/// byte budget divided by the measured average row size, clamped to the
/// format's workable range. A non-positive byte budget falls back to the
/// default target.
pub open spec fn spec_rows_per_group(size_bytes: int, total_rows: int, target_bytes: int) -> int {
    let effective = if target_bytes <= 0 {
        DEFAULT_PARQUET_ROW_GROUP_BYTES as int
    } else {
        target_bytes
    };
    let est = (effective * total_rows) / size_bytes;
    if est < 1000 {
        1000
    } else if est > 32767 {
        32767
    } else {
        est
    }
}

/// Computes the rows-per-group target from measured statistics. The result
/// always lies in `[1000, 32767]`, and a non-positive target gives exactly
/// the default target's value.
pub fn compute_rows_per_group_from_stats(size_bytes: u64, total_rows: u64, target_bytes: i64) -> (r:
    u64)
    requires
        size_bytes >= 1,
        total_rows >= 1,
    ensures
        r == spec_rows_per_group(size_bytes as int, total_rows as int, target_bytes as int),
        1000 <= r <= 32767,
        target_bytes <= 0 ==> r == spec_rows_per_group(
            size_bytes as int,
            total_rows as int,
            DEFAULT_PARQUET_ROW_GROUP_BYTES as int,
        ),
{
    let effective: u64 = if target_bytes <= 0 {
        DEFAULT_PARQUET_ROW_GROUP_BYTES as u64
    } else {
        target_bytes as u64
    };
    proof {
        assert((effective as int) * (total_rows as int) <= (u64::MAX as int) * (u64::MAX
            as int)) by {
            vstd::arithmetic::mul::lemma_mul_upper_bound(
                effective as int,
                u64::MAX as int,
                total_rows as int,
                u64::MAX as int,
            );
        }
    }
    let est: u128 = (effective as u128 * total_rows as u128) / (size_bytes as u128);
    proof {
        assert(effective as int * total_rows as int >= 0) by {
            vstd::arithmetic::mul::lemma_mul_nonnegative(effective as int, total_rows as int);
        }
    }
    if est < 1000 {
        1000
    } else if est > 32767 {
        32767
    } else {
        est as u64
    }
}

/// The row range the zone path assigns to 0-based part `i` of `parts` over
/// `total` rows: every part gets an even share, and the first
/// `total % parts` parts get one extra row each.
pub open spec fn spec_zone_part_rows(total: int, parts: int, i: int) -> int {
    total / parts + if i < total % parts {
        1int
    } else {
        0int
    }
}

/// The 0-based row offset where part `i`'s range begins.
pub open spec fn spec_zone_part_offset(total: int, parts: int, i: int) -> int {
    i * (total / parts) + vstd::math::min(i, total % parts)
}

/// Computes `(offset, row_count)` for 0-based part `i` of `parts` over
/// `total` rows.
pub fn zone_row_range(total: u64, parts: u64, i: u64) -> (r: (u64, u64))
    requires
        parts >= 1,
        i < parts,
    ensures
        r.0 == spec_zone_part_offset(total as int, parts as int, i as int),
        r.1 == spec_zone_part_rows(total as int, parts as int, i as int),
        r.0 + r.1 <= total,
{
    let base = total / parts;
    let rem = total % parts;
    proof {
        vstd::arithmetic::div_mod::lemma_fundamental_div_mod(total as int, parts as int);
        vstd::arithmetic::div_mod::lemma_mod_bound(total as int, parts as int);
        vstd::arithmetic::div_mod::lemma_div_pos_is_pos(total as int, parts as int);
        assert(parts as int * (total as int / parts as int) >= total as int / parts as int) by {
            vstd::arithmetic::mul::lemma_mul_inequality(1, parts as int, total as int / parts as int);
            vstd::arithmetic::mul::lemma_mul_basics(total as int / parts as int);
        }
    }
    let rows = if i < rem {
        base + 1
    } else {
        base
    };
    proof {
        lemma_zone_offset_bounds(total as int, parts as int, i as int);
    }
    let offset = i * base + (if i < rem {
        i
    } else {
        rem
    });
    (offset, rows)
}

/// The offset plus the rows of part `i` never pass the total, and the
/// arithmetic stays within the total's own bounds.
proof fn lemma_zone_offset_bounds(total: int, parts: int, i: int)
    requires
        total >= 0,
        parts >= 1,
        0 <= i < parts,
    ensures
        0 <= i * (total / parts),
        i * (total / parts) + vstd::math::min(i, total % parts) + spec_zone_part_rows(
            total,
            parts,
            i,
        ) <= total,
{
    let base = total / parts;
    let rem = total % parts;
    vstd::arithmetic::div_mod::lemma_div_pos_is_pos(total, parts);
    vstd::arithmetic::div_mod::lemma_mod_bound(total, parts);
    vstd::arithmetic::div_mod::lemma_fundamental_div_mod(total, parts);
    vstd::arithmetic::mul::lemma_mul_nonnegative(i, base);
    assert((i + 1) * base <= parts * base) by {
        vstd::arithmetic::mul::lemma_mul_inequality(i + 1, parts, base);
    }
    assert(i * base + base == (i + 1) * base) by {
        vstd::arithmetic::mul::lemma_mul_is_distributive_add_other_way(base, i, 1);
        vstd::arithmetic::mul::lemma_mul_basics(base);
    }
    if i < rem {
        assert(i * base + i + base + 1 <= parts * base + rem);
    } else {
        assert(i * base + rem + base <= parts * base + rem);
    }
}

/// Zone range coverage: the per-part ranges are contiguous, begin at row
/// zero, and end exactly at the total: full coverage of the row space with
/// no gap and no overlap, with the remainder rows going to the
/// lowest-indexed parts.
pub proof fn lemma_zone_ranges_partition(total: int, parts: int)
    requires
        total >= 0,
        parts >= 1,
    ensures
        spec_zone_part_offset(total, parts, 0) == 0,
        forall|i: int|
            0 <= i < parts - 1 ==> spec_zone_part_offset(total, parts, i + 1)
                == spec_zone_part_offset(total, parts, i) + spec_zone_part_rows(total, parts, i),
        spec_zone_part_offset(total, parts, parts - 1) + spec_zone_part_rows(
            total,
            parts,
            parts - 1,
        ) == total,
{
    let base = total / parts;
    let rem = total % parts;
    vstd::arithmetic::div_mod::lemma_div_pos_is_pos(total, parts);
    vstd::arithmetic::div_mod::lemma_mod_bound(total, parts);
    vstd::arithmetic::div_mod::lemma_fundamental_div_mod(total, parts);
    assert(spec_zone_part_offset(total, parts, 0) == 0) by {
        vstd::arithmetic::mul::lemma_mul_basics(base);
    }
    assert forall|i: int|
        0 <= i < parts - 1 implies spec_zone_part_offset(total, parts, i + 1)
        == spec_zone_part_offset(total, parts, i) + spec_zone_part_rows(total, parts, i) by {
        assert((i + 1) * base == i * base + base) by {
            vstd::arithmetic::mul::lemma_mul_is_distributive_add_other_way(base, i, 1);
            vstd::arithmetic::mul::lemma_mul_basics(base);
        }
    }
    assert(spec_zone_part_offset(total, parts, parts - 1) + spec_zone_part_rows(
        total,
        parts,
        parts - 1,
    ) == total) by {
        assert((parts - 1) * base + base == parts * base) by {
            vstd::arithmetic::mul::lemma_mul_is_distributive_sub_other_way(base, parts, 1);
            vstd::arithmetic::mul::lemma_mul_basics(base);
        }
        assert(parts * base + rem == total);
        assert(rem <= parts - 1);
    }
}

/// The statistics the zone writer plans with: below scale factor one with
/// several parts, each part's file is sized from its own share of the
/// scale, kept at least minimal so the measured pair stays positive.
pub open spec fn spec_zone_write_stats(scale_milli: int, parts: int) -> (int, int) {
    if scale_milli <= 1000 && parts > 1 {
        let share = if scale_milli / parts < 1 {
            1
        } else {
            scale_milli / parts
        };
        spec_zone_stats(share)
    } else {
        spec_zone_stats(scale_milli)
    }
}

/// The rows-per-group target the zone writer uses for one part request.
pub fn zone_rows_per_group(scale_milli: u64, parts: u64, target_bytes: i64) -> (r: u64)
    requires
        scale_milli >= 1,
        parts >= 1,
    ensures
        ({
            let (size, rows) = spec_zone_write_stats(scale_milli as int, parts as int);
            r == spec_rows_per_group(size, rows, target_bytes as int)
        }),
        1000 <= r <= 32767,
{
    let effective_milli: u64 = if scale_milli <= 1000 && parts > 1 {
        let share = scale_milli / parts;
        if share < 1 {
            1
        } else {
            share
        }
    } else {
        scale_milli
    };
    let (size, rows) = get_zone_table_stats(effective_milli);
    compute_rows_per_group_from_stats(size, rows, target_bytes)
}

/// The dataset subtypes a scale factor includes: three at every scale, and
/// cumulatively more at scale factors ten, one hundred, and one thousand —
/// a higher scale factor always includes every subtype of a lower one.
pub open spec fn spec_zone_subtypes(scale_milli: int) -> Seq<Seq<char>> {
    let base = seq!["microhood"@, "macrohood"@, "county"@];
    let s10 = if scale_milli >= 10000 {
        base.push("neighborhood"@)
    } else {
        base
    };
    let s100 = if scale_milli >= 100000 {
        s10 + seq!["localadmin"@, "locality"@, "region"@, "dependency"@]
    } else {
        s10
    };
    if scale_milli >= 1000000 {
        s100.push("country"@)
    } else {
        s100
    }
}

/// Returns the dataset subtypes included at the given scale factor.
pub fn subtypes_for_scale_factor(scale_milli: u64) -> (r: Vec<&'static str>)
    ensures
        r@.len() == spec_zone_subtypes(scale_milli as int).len(),
        forall|i: int|
            0 <= i < r@.len() ==> (#[trigger] r@[i])@ == spec_zone_subtypes(scale_milli as int)[i],
{
    let mut v: Vec<&'static str> = Vec::new();
    v.push("microhood");
    v.push("macrohood");
    v.push("county");
    if scale_milli >= 10000 {
        v.push("neighborhood");
    }
    if scale_milli >= 100000 {
        v.push("localadmin");
        v.push("locality");
        v.push("region");
        v.push("dependency");
    }
    if scale_milli >= 1000000 {
        v.push("country");
    }
    v
}

/// The measured row count of each dataset subtype.
pub open spec fn spec_zone_subtype_rows(name: Seq<char>) -> int {
    if name == "microhood"@ {
        74797
    } else if name == "macrohood"@ {
        42619
    } else if name == "neighborhood"@ {
        298615
    } else if name == "county"@ {
        38679
    } else if name == "localadmin"@ {
        19007
    } else if name == "locality"@ {
        555834
    } else if name == "region"@ {
        3905
    } else if name == "dependency"@ {
        53
    } else if name == "country"@ {
        219
    } else {
        0
    }
}

/// The sum of the measured subtype row counts over a list of subtypes.
pub open spec fn spec_subtype_rows_sum(names: Seq<Seq<char>>) -> int
    decreases names.len(),
{
    if names.len() == 0 {
        0
    } else {
        spec_subtype_rows_sum(names.drop_last()) + spec_zone_subtype_rows(names.last())
    }
}

/// The estimated total zone rows for a scale factor: the measured counts
/// of its included subtypes summed, scaled linearly (rounding up) below
/// scale factor one.
pub open spec fn spec_estimated_total_rows(scale_milli: int) -> int {
    let total = spec_subtype_rows_sum(spec_zone_subtypes(scale_milli));
    if scale_milli < 1000 {
        (total * scale_milli + 999) / 1000
    } else {
        total
    }
}

/// Evaluates the subtype row sum for each scale-factor bucket.
proof fn lemma_subtype_rows_sum(scale_milli: int)
    ensures
        spec_subtype_rows_sum(spec_zone_subtypes(scale_milli)) == 156095 + (if scale_milli
            >= 10000 {
            298615int
        } else {
            0int
        }) + (if scale_milli >= 100000 {
            578799int
        } else {
            0int
        }) + (if scale_milli >= 1000000 {
            219int
        } else {
            0int
        }),
{
    reveal_strlit("microhood");
    reveal_strlit("macrohood");
    reveal_strlit("county");
    reveal_strlit("neighborhood");
    reveal_strlit("localadmin");
    reveal_strlit("locality");
    reveal_strlit("region");
    reveal_strlit("dependency");
    reveal_strlit("country");
    assert("microhood"@[0] == 'm' && "microhood"@[1] == 'i');
    assert("macrohood"@[0] == 'm' && "macrohood"@[1] == 'a');
    assert("neighborhood"@[0] == 'n');
    assert("county"@[0] == 'c' && "county"@[5] == 'y');
    assert("localadmin"@[0] == 'l' && "localadmin"@[5] == 'a');
    assert("locality"@[0] == 'l' && "locality"@[5] == 'i');
    assert("region"@[0] == 'r');
    assert("dependency"@[0] == 'd');
    assert("country"@[0] == 'c' && "country"@[5] == 'r');
    assert("macrohood"@ != "microhood"@);
    assert("neighborhood"@ != "microhood"@ && "neighborhood"@ != "macrohood"@);
    assert("county"@ != "microhood"@ && "county"@ != "macrohood"@ && "county"@
        != "neighborhood"@);
    assert("localadmin"@ != "microhood"@ && "localadmin"@ != "macrohood"@ && "localadmin"@
        != "neighborhood"@ && "localadmin"@ != "county"@);
    assert("locality"@ != "microhood"@ && "locality"@ != "macrohood"@ && "locality"@
        != "neighborhood"@ && "locality"@ != "county"@ && "locality"@ != "localadmin"@);
    assert("region"@ != "microhood"@ && "region"@ != "macrohood"@ && "region"@
        != "neighborhood"@ && "region"@ != "county"@ && "region"@ != "localadmin"@ && "region"@
        != "locality"@);
    assert("dependency"@ != "microhood"@ && "dependency"@ != "macrohood"@ && "dependency"@
        != "neighborhood"@ && "dependency"@ != "county"@ && "dependency"@ != "localadmin"@
        && "dependency"@ != "locality"@ && "dependency"@ != "region"@);
    assert("country"@ != "microhood"@ && "country"@ != "macrohood"@ && "country"@
        != "neighborhood"@ && "country"@ != "county"@ && "country"@ != "localadmin"@ && "country"@
        != "locality"@ && "country"@ != "region"@ && "country"@ != "dependency"@);
    assert(spec_zone_subtype_rows("microhood"@) == 74797);
    assert(spec_zone_subtype_rows("macrohood"@) == 42619);
    assert(spec_zone_subtype_rows("county"@) == 38679);
    assert(spec_zone_subtype_rows("neighborhood"@) == 298615);
    assert(spec_zone_subtype_rows("localadmin"@) == 19007);
    assert(spec_zone_subtype_rows("locality"@) == 555834);
    assert(spec_zone_subtype_rows("region"@) == 3905);
    assert(spec_zone_subtype_rows("dependency"@) == 53);
    assert(spec_zone_subtype_rows("country"@) == 219);
    let s3 = seq!["microhood"@, "macrohood"@, "county"@];
    assert(s3.drop_last() =~= seq!["microhood"@, "macrohood"@]);
    assert(seq!["microhood"@, "macrohood"@].drop_last() =~= seq!["microhood"@]);
    assert(seq!["microhood"@].drop_last() =~= Seq::<Seq<char>>::empty());
    assert(spec_subtype_rows_sum(Seq::<Seq<char>>::empty()) == 0);
    assert(spec_subtype_rows_sum(seq!["microhood"@]) == 74797);
    assert(spec_subtype_rows_sum(seq!["microhood"@, "macrohood"@]) == 117416);
    assert(spec_subtype_rows_sum(s3) == 156095);
    if scale_milli < 10000 {
        assert(spec_zone_subtypes(scale_milli) =~= s3);
    } else {
        let s10 = s3.push("neighborhood"@);
        assert(s10.drop_last() =~= s3);
        assert(s10.last() == "neighborhood"@);
        assert(spec_subtype_rows_sum(s10) == 454710);
        if scale_milli < 100000 {
            assert(spec_zone_subtypes(scale_milli) =~= s10);
        } else {
            let s100 = s10 + seq!["localadmin"@, "locality"@, "region"@, "dependency"@];
            assert((s10 + seq!["localadmin"@]).drop_last() =~= s10);
            assert((s10 + seq!["localadmin"@]).last() == "localadmin"@);
            assert((s10 + seq!["localadmin"@, "locality"@]).drop_last() =~= s10 + seq![
                "localadmin"@,
            ]);
            assert((s10 + seq!["localadmin"@, "locality"@]).last() == "locality"@);
            assert((s10 + seq!["localadmin"@, "locality"@, "region"@]).drop_last() =~= s10 + seq![
                "localadmin"@,
                "locality"@,
            ]);
            assert((s10 + seq!["localadmin"@, "locality"@, "region"@]).last() == "region"@);
            assert(s100.drop_last() =~= s10 + seq!["localadmin"@, "locality"@, "region"@]);
            assert(s100.last() == "dependency"@);
            assert(spec_subtype_rows_sum(s10 + seq!["localadmin"@]) == 473717);
            assert(spec_subtype_rows_sum(s10 + seq!["localadmin"@, "locality"@]) == 1029551);
            assert(spec_subtype_rows_sum(s10 + seq!["localadmin"@, "locality"@, "region"@])
                == 1033456);
            assert(spec_subtype_rows_sum(s100) == 1033509);
            if scale_milli < 1000000 {
                assert(spec_zone_subtypes(scale_milli) =~= s100);
            } else {
                let s1000 = s100.push("country"@);
                assert(s1000.drop_last() =~= s100);
                assert(spec_subtype_rows_sum(s1000) == 1033728);
                assert(spec_zone_subtypes(scale_milli) =~= s1000);
            }
        }
    }
}

/// Returns the estimated total zone rows for the given scale factor.
pub fn estimated_total_rows_for_sf(scale_milli: u64) -> (r: u64)
    requires
        scale_milli >= 1,
    ensures
        r == spec_estimated_total_rows(scale_milli as int),
        r >= 1,
{
    proof {
        lemma_subtype_rows_sum(scale_milli as int);
    }
    let mut total: u64 = 156095;
    if scale_milli >= 10000 {
        total = total + 298615;
    }
    if scale_milli >= 100000 {
        total = total + 578799;
    }
    if scale_milli >= 1000000 {
        total = total + 219;
    }
    if scale_milli < 1000 {
        let r: u64 = (total * scale_milli + 999) / 1000;
        assert(r >= 1) by {
            assert(total as int * scale_milli >= 1) by {
                vstd::arithmetic::mul::lemma_mul_strictly_positive(
                    total as int,
                    scale_milli as int,
                );
            }
            vstd::arithmetic::div_mod::lemma_div_is_ordered(
                1000,
                total as int * scale_milli + 999,
                1000,
            );
        }
        r
    } else {
        total
    }
}

/// Why a zone generation request was rejected.
#[derive(Debug, Copy, Clone, PartialEq, Eq, Structural)]
pub enum ZoneError {
    /// `part` was supplied without `parts`: a partial partition choice is
    /// invalid input, not a default.
    PartWithoutParts,
    /// `parts` was supplied without `part`.
    PartsWithoutPart,
    /// The requested part lies outside `1..=parts`.
    InvalidPart { part: u64, parts: u64 },
    /// A target output file size cannot be combined with a partition choice.
    SizeWithParts,
    /// The zone table is only rendered in the columnar format.
    UnsupportedFormat,
}

/// The user-facing message for a rejected zone request.
pub open spec fn spec_zone_error_message(e: ZoneError) -> Seq<char> {
    match e {
        ZoneError::PartWithoutParts => "The --part option requires the --parts option to be set"@,
        ZoneError::PartsWithoutPart => "The --part_count option requires the --part option to be set"@,
        ZoneError::InvalidPart { part, parts } => {
            "Invalid --part="@ + spec_decimal(part as int) + " for --parts="@ + spec_decimal(
                parts as int,
            )
        },
        ZoneError::SizeWithParts => "Cannot specify --parts/--part with --max-file-size-mb"@,
        ZoneError::UnsupportedFormat => "Zone table is only supported in --format=parquet (via DataFusion/S3)."@,
    }
}

impl ZoneError {
    /// Renders the user-facing message for this rejection.
    pub fn message(&self) -> (r: String)
        ensures
            r@ == spec_zone_error_message(*self),
    {
        match self {
            ZoneError::PartWithoutParts => {
                let r = "The --part option requires the --parts option to be set".to_owned();
                r
            },
            ZoneError::PartsWithoutPart => {
                let r = "The --part_count option requires the --part option to be set".to_owned();
                r
            },
            ZoneError::InvalidPart { part, parts } => {
                let mut r = "Invalid --part=".to_owned();
                append_decimal(&mut r, *part);
                r.append(" for --parts=");
                append_decimal(&mut r, *parts);
                proof {
                    assert(r@ =~= spec_zone_error_message(*self));
                }
                r
            },
            ZoneError::SizeWithParts => {
                let r = "Cannot specify --parts/--part with --max-file-size-mb".to_owned();
                r
            },
            ZoneError::UnsupportedFormat => {
                let r =
                    "Zone table is only supported in --format=parquet (via DataFusion/S3).".to_owned();
                r
            },
        }
    }
}

/// A zone generation request: the scale factor (in thousandths), where the
/// output goes, the partition choice, an optional target output file size
/// in whole megabytes, and the row-group byte target. The remote query
/// engine and the columnar encoder act on it outside this crate.
pub struct ZoneDfArgs {
    pub scale_factor_milli: u64,
    pub output_dir: String,
    pub parts: Option<u64>,
    pub part: Option<u64>,
    pub output_file_size_mb: Option<u64>,
    pub parquet_row_group_bytes: i64,
}

/// Validation of a zone request: a partial partition choice is rejected
/// before any planning value is computed, a part outside `1..=parts` is
/// rejected, and a target file size cannot be combined with a partition
/// choice.
pub open spec fn spec_zone_validate(a: ZoneDfArgs) -> Result<(), ZoneError> {
    if a.part is Some && a.parts is None {
        Err(ZoneError::PartWithoutParts)
    } else if a.parts is Some && a.part is None {
        Err(ZoneError::PartsWithoutPart)
    } else if a.part is Some && a.parts is Some && (a.part->0 < 1 || a.part->0 > a.parts->0) {
        Err(ZoneError::InvalidPart { part: a.part->0, parts: a.parts->0 })
    } else if a.output_file_size_mb is Some && (a.parts is Some || a.part is Some) {
        Err(ZoneError::SizeWithParts)
    } else {
        Ok(())
    }
}

/// The file a zone request writes: multi-part requests go under a
/// per-table subdirectory with the part number in the name; a single-part
/// request writes one file in the output directory.
pub open spec fn spec_zone_output_filename(a: ZoneDfArgs) -> Seq<char> {
    let parts = if a.parts is Some {
        a.parts->0
    } else {
        1
    };
    let part = if a.part is Some {
        a.part->0
    } else {
        1
    };
    if parts > 1 {
        a.output_dir@ + "/zone/zone."@ + spec_decimal(part as int) + ".parquet"@
    } else {
        a.output_dir@ + "/zone.parquet"@
    }
}

impl ZoneDfArgs {
    /// Builds a zone request from its parts.
    pub fn new(
        scale_factor_milli: u64,
        output_dir: String,
        parts: Option<u64>,
        part: Option<u64>,
        output_file_size_mb: Option<u64>,
        parquet_row_group_bytes: i64,
    ) -> (r: ZoneDfArgs)
        ensures
            r == (ZoneDfArgs {
                scale_factor_milli,
                output_dir,
                parts,
                part,
                output_file_size_mb,
                parquet_row_group_bytes,
            }),
    {
        ZoneDfArgs {
            scale_factor_milli,
            output_dir,
            parts,
            part,
            output_file_size_mb,
            parquet_row_group_bytes,
        }
    }

    /// Rejects a partial partition choice, an out-of-range part, or a
    /// file-size target combined with a partition choice; accepts
    /// everything else.
    pub fn validate(&self) -> (r: Result<(), ZoneError>)
        ensures
            r == spec_zone_validate(*self),
    {
        if self.part.is_some() && self.parts.is_none() {
            return Err(ZoneError::PartWithoutParts);
        }
        if self.parts.is_some() && self.part.is_none() {
            return Err(ZoneError::PartsWithoutPart);
        }
        if let (Some(part), Some(parts)) = (self.part, self.parts) {
            if part < 1 || part > parts {
                return Err(ZoneError::InvalidPart { part, parts });
            }
        }
        if self.output_file_size_mb.is_some() && (self.parts.is_some() || self.part.is_some()) {
            return Err(ZoneError::SizeWithParts);
        }
        Ok(())
    }

    /// Returns the path of the file this request writes.
    pub fn output_filename(&self) -> (r: String)
        ensures
            r@ == spec_zone_output_filename(*self),
    {
        let parts: u64 = match self.parts {
            Some(v) => v,
            None => 1,
        };
        let part: u64 = match self.part {
            Some(v) => v,
            None => 1,
        };
        if parts > 1 {
            let mut r = self.output_dir.clone();
            r.append("/zone/zone.");
            append_decimal(&mut r, part);
            r.append(".parquet");
            proof {
                assert(r@ =~= spec_zone_output_filename(*self));
            }
            r
        } else {
            let mut r = self.output_dir.clone();
            r.append("/zone.parquet");
            proof {
                assert(r@ =~= spec_zone_output_filename(*self));
            }
            r
        }
    }
}

/// Builds the zone request a generation run uses, or rejects it: the zone
/// table is only rendered in the columnar format, a partial partition
/// choice is invalid input, and the scale factor is never taken below one.
pub fn zone_request(
    format: OutputFormat,
    scale_milli: u64,
    output_dir: String,
    parts: Option<u64>,
    part: Option<u64>,
    output_file_size_mb: Option<u64>,
    parquet_row_group_bytes: i64,
) -> (r: Result<ZoneDfArgs, ZoneError>)
    ensures
        r is Ok <==> (format == OutputFormat::Parquet && (part is Some <==> parts is Some)),
        r is Err ==> r->Err_0 == (if format != OutputFormat::Parquet {
            ZoneError::UnsupportedFormat
        } else if part is Some && parts is None {
            ZoneError::PartWithoutParts
        } else {
            ZoneError::PartsWithoutPart
        }),
        r is Ok ==> r->Ok_0 == (ZoneDfArgs {
            scale_factor_milli: if scale_milli < 1000 {
                1000u64
            } else {
                scale_milli
            },
            output_dir,
            parts,
            part,
            output_file_size_mb,
            parquet_row_group_bytes,
        }),
{
    if !matches!(format, OutputFormat::Parquet) {
        return Err(ZoneError::UnsupportedFormat);
    }
    if part.is_some() && parts.is_none() {
        return Err(ZoneError::PartWithoutParts);
    }
    if parts.is_some() && part.is_none() {
        return Err(ZoneError::PartsWithoutPart);
    }
    let scale_factor_milli: u64 = if scale_milli < 1000 {
        1000
    } else {
        scale_milli
    };
    Ok(
        ZoneDfArgs {
            scale_factor_milli,
            output_dir,
            parts,
            part,
            output_file_size_mb,
            parquet_row_group_bytes,
        },
    )
}

/// Where the zone dataset lives in the public object store: the bucket,
/// the release prefix, and the dataset's theme and type.
pub open spec fn spec_zones_parquet_url() -> Seq<char> {
    "s3://"@ + "overturemaps-us-west-2"@ + "/"@ + "release"@ + "/"@ + "2025-08-20.1"@
        + "/theme=divisions/type=division_area/"@
}

/// Builds the object-store URL the zone dataset is read from.
pub fn zones_parquet_url() -> (r: String)
    ensures
        r@ == spec_zones_parquet_url(),
{
    let mut r = "s3://".to_owned();
    r.append("overturemaps-us-west-2");
    r.append("/");
    r.append("release");
    r.append("/");
    r.append("2025-08-20.1");
    r.append("/theme=divisions/type=division_area/");
    r
}

} // verus!
