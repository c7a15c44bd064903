//! Planning how one generation request becomes an ordered sequence of
//! generation units.
//!
//! A request names a table, an output format, a scale factor (carried as an
//! integer count of thousandths, so that a quarter scale factor is 250), an
//! optional `(part, total_parts)` partition choice, and a target row-group
//! byte size for the columnar format. The plan validates the request and
//! produces the ordered units whose rendered outputs, concatenated in plan
//! order, are the output of the request itself.

use vstd::prelude::*;

use crate::decimal::{append_decimal, spec_decimal};
use crate::table::{OutputFormat, Table};

verus! {

/// Default target size in bytes of one row group in a columnar output file.
pub const DEFAULT_PARQUET_ROW_GROUP_BYTES: i64 = 134217728;

/// The hard limit the columnar format places on row groups per file; also
/// the largest number of units a plan will produce, so that an encoder
/// writing at least one row group per unit stays within the format's bound.
pub const MAX_ROW_GROUPS_PER_FILE: u64 = 32767;

/// One deterministic slice of a table's row space: slice `part` of
/// `total_parts` equal slices (the last slice also takes the remainder).
#[derive(Debug, Copy, Clone, PartialEq, Eq, Structural)]
pub struct GenerationUnit {
    pub part: u64,
    pub total_parts: u64,
}

impl GenerationUnit {
    /// A unit is well formed when its part index is 1-based and in range.
    pub open spec fn wf(self) -> bool {
        1 <= self.part <= self.total_parts
    }
}

/// Why a generation request was rejected before any work started.
#[derive(Debug, Copy, Clone, PartialEq, Eq, Structural)]
pub enum PlanError {
    /// `part` was supplied without `total_parts`.
    PartWithoutParts,
    /// `total_parts` was supplied without `part`.
    PartsWithoutPart,
    /// The supplied `part` was zero.
    PartZero { got: u64 },
    /// The supplied `part` was larger than `total_parts`.
    PartOutOfRange { parts: u64, got: u64 },
    /// The scale factor was not a positive number.
    InvalidScaleFactor,
}

/// The user-facing message for a rejected request.
pub open spec fn spec_plan_error_message(e: PlanError) -> Seq<char> {
    match e {
        PlanError::PartWithoutParts => "The --part option requires the --parts option to be set"@,
        PlanError::PartsWithoutPart => "The --part_count option requires the --part option to be set"@,
        PlanError::PartZero { got } => "Invalid --part. Expected a number greater than zero, got "@
            + spec_decimal(got as int),
        PlanError::PartOutOfRange { parts, got } => {
            "Invalid --part. Expected at most the value of --parts ("@ + spec_decimal(parts as int)
                + "), got "@ + spec_decimal(got as int)
        },
        PlanError::InvalidScaleFactor => "Invalid scale factor. Expected a number greater than zero"@,
    }
}

impl PlanError {
    /// Renders the user-facing message for this rejection.
    pub fn message(&self) -> (r: String)
        ensures
            r@ == spec_plan_error_message(*self),
    {
        match self {
            PlanError::PartWithoutParts => {
                let r = "The --part option requires the --parts option to be set".to_owned();
                r
            },
            PlanError::PartsWithoutPart => {
                let r = "The --part_count option requires the --part option to be set".to_owned();
                r
            },
            PlanError::PartZero { got } => {
                let mut r = "Invalid --part. Expected a number greater than zero, got ".to_owned();
                append_decimal(&mut r, *got);
                r
            },
            PlanError::PartOutOfRange { parts, got } => {
                let mut r = "Invalid --part. Expected at most the value of --parts (".to_owned();
                append_decimal(&mut r, *parts);
                r.append("), got ");
                append_decimal(&mut r, *got);
                proof {
                    assert(r@ =~= spec_plan_error_message(*self));
                }
                r
            },
            PlanError::InvalidScaleFactor => {
                let r = "Invalid scale factor. Expected a number greater than zero".to_owned();
                r
            },
        }
    }
}

/// Validation of a generation request: a partial partition choice is
/// rejected, a zero or out-of-range part is rejected, and a non-positive
/// scale factor is rejected. On success, an absent partition choice
/// defaults to the whole table, part 1 of 1.
pub open spec fn spec_validate(part: Option<u64>, parts: Option<u64>, scale_milli: u64) -> Result<
    (u64, u64),
    PlanError,
> {
    if part is Some && parts is None {
        Err(PlanError::PartWithoutParts)
    } else if parts is Some && part is None {
        Err(PlanError::PartsWithoutPart)
    } else {
        let p = if part is Some {
            part->0
        } else {
            1
        };
        let tp = if parts is Some {
            parts->0
        } else {
            1
        };
        if p == 0 {
            Err(PlanError::PartZero { got: p })
        } else if p > tp {
            Err(PlanError::PartOutOfRange { parts: tp, got: p })
        } else if scale_milli == 0 {
            Err(PlanError::InvalidScaleFactor)
        } else {
            Ok((p, tp))
        }
    }
}

/// How many units a whole-table columnar request is subdivided into: eight
/// units per unit of scale factor, at least one, and never more than the
/// row-group limit of the format.
pub open spec fn spec_parquet_unit_count(scale_milli: int) -> int {
    let c = scale_milli * 8 / 1000;
    if c < 1 {
        1
    } else if c > MAX_ROW_GROUPS_PER_FILE as int {
        MAX_ROW_GROUPS_PER_FILE as int
    } else {
        c
    }
}

/// The ordered units of a validated request. A whole-table columnar request
/// is subdivided so concurrent workers can each own a smaller slice; any
/// other request maps one-to-one to a single unit. An explicitly requested
/// part is never subdivided: the row slice owned by part `p` of `tp` cannot
/// be expressed as a union of slices of any finer uniform split, so
/// subdividing it would change the bytes produced.
pub open spec fn spec_plan_units(
    format: OutputFormat,
    p: u64,
    tp: u64,
    scale_milli: u64,
) -> Seq<GenerationUnit> {
    if format == OutputFormat::Parquet && tp == 1 {
        let c = spec_parquet_unit_count(scale_milli as int);
        Seq::new(
            c as nat,
            |k: int| (GenerationUnit { part: (k + 1) as u64, total_parts: c as u64 }),
        )
    } else {
        seq![(GenerationUnit { part: p, total_parts: tp })]
    }
}

/// A measured upper bound on the bytes one synthesized table holds per
/// unit of scale factor; with it the plan sizes row groups so one file
/// never passes the format's row-group limit.
pub const ESTIMATED_TABLE_BYTES_PER_SCALE: u64 = 1000000000;

/// The largest supported scale factor, in thousandths; the sizing
/// estimate saturates here.
pub const MAX_SUPPORTED_SCALE_MILLI: u64 = 100000000000;

/// The estimated bytes one table holds at a scale factor: linear in the
/// scale, saturating at the largest supported scale.
pub open spec fn spec_estimated_table_bytes(scale_milli: int) -> int {
    let m = if scale_milli > MAX_SUPPORTED_SCALE_MILLI as int {
        MAX_SUPPORTED_SCALE_MILLI as int
    } else {
        scale_milli
    };
    m * (ESTIMATED_TABLE_BYTES_PER_SCALE as int) / 1000
}

/// The effective row-group byte target: a non-positive or unset request
/// falls back to the default target, and the target is raised as the
/// scale grows, so that the whole estimated table fits the format's
/// row-group limit — the bound is met by growing the groups, never by
/// dropping data (`lemma_row_group_count_within_limit`).
pub open spec fn spec_row_group_bytes(target: i64, scale_milli: u64) -> int {
    let base = if target <= 0 {
        DEFAULT_PARQUET_ROW_GROUP_BYTES as int
    } else {
        target as int
    };
    let needed = (spec_estimated_table_bytes(scale_milli as int) + MAX_ROW_GROUPS_PER_FILE as int
        - 1) / (MAX_ROW_GROUPS_PER_FILE as int);
    if base < needed {
        needed
    } else {
        base
    }
}

/// The effective target keeps one file within the format's row-group
/// limit: an encoder that starts a new row group whenever the target
/// bytes are reached cuts at most the limit's worth of groups from the
/// whole estimated table, at every supported scale and every requested
/// target.
pub proof fn lemma_row_group_count_within_limit(target: i64, scale_milli: u64)
    ensures
        ({
            let est = spec_estimated_table_bytes(scale_milli as int);
            let eff = spec_row_group_bytes(target, scale_milli);
            &&& eff >= 1
            &&& (est + eff - 1) / eff <= MAX_ROW_GROUPS_PER_FILE as int
        }),
{
    let limit = MAX_ROW_GROUPS_PER_FILE as int;
    let est = spec_estimated_table_bytes(scale_milli as int);
    let eff = spec_row_group_bytes(target, scale_milli);
    let needed = (est + limit - 1) / limit;
    let m = if scale_milli as int > MAX_SUPPORTED_SCALE_MILLI as int {
        MAX_SUPPORTED_SCALE_MILLI as int
    } else {
        scale_milli as int
    };
    assert(est >= 0) by {
        vstd::arithmetic::mul::lemma_mul_nonnegative(m, ESTIMATED_TABLE_BYTES_PER_SCALE as int);
        vstd::arithmetic::div_mod::lemma_div_pos_is_pos(
            m * (ESTIMATED_TABLE_BYTES_PER_SCALE as int),
            1000,
        );
    }
    assert(needed >= 0) by {
        vstd::arithmetic::div_mod::lemma_div_pos_is_pos(est + limit - 1, limit);
    }
    assert(limit * needed >= est) by {
        vstd::arithmetic::div_mod::lemma_fundamental_div_mod(est + limit - 1, limit);
        vstd::arithmetic::div_mod::lemma_mod_bound(est + limit - 1, limit);
    }
    assert(limit * needed <= limit * eff) by {
        vstd::arithmetic::mul::lemma_mul_inequality(needed, eff, limit);
        vstd::arithmetic::mul::lemma_mul_is_commutative(needed, limit);
        vstd::arithmetic::mul::lemma_mul_is_commutative(eff, limit);
    }
    assert(est + eff - 1 < (limit + 1) * eff) by {
        vstd::arithmetic::mul::lemma_mul_is_distributive_add_other_way(eff, limit, 1);
        vstd::arithmetic::mul::lemma_mul_basics(eff);
    }
    let q = (est + eff - 1) / eff;
    assert(q <= limit) by {
        vstd::arithmetic::div_mod::lemma_fundamental_div_mod(est + eff - 1, eff);
        vstd::arithmetic::div_mod::lemma_mod_bound(est + eff - 1, eff);
        assert(eff * q <= est + eff - 1);
        assert(eff * q < eff * (limit + 1)) by {
            vstd::arithmetic::mul::lemma_mul_is_commutative(limit + 1, eff);
        }
        vstd::arithmetic::mul::lemma_mul_strict_inequality_converse(q, limit + 1, eff);
    }
}

/// A validated generation request: the table, the ordered units to render,
/// and the physical parameters the renderer needs.
pub struct GenerationPlan {
    pub table: Table,
    pub units: Vec<GenerationUnit>,
    pub row_group_bytes: u64,
}

impl GenerationPlan {
    /// A plan is well formed when it holds at least one well-formed unit.
    pub open spec fn wf(self) -> bool {
        &&& self.units@.len() >= 1
        &&& forall|i: int| 0 <= i < self.units@.len() ==> self.units@[i].wf()
    }

    /// Validates a request and builds its plan. Returns a plan exactly when
    /// the partition choice is complete and in range and the scale factor is
    /// positive; otherwise returns the rejection, before any work starts.
    pub fn try_new(
        table: &Table,
        format: OutputFormat,
        scale_milli: u64,
        part: Option<u64>,
        parts: Option<u64>,
        parquet_row_group_bytes: i64,
    ) -> (r: Result<GenerationPlan, PlanError>)
        ensures
            r is Ok <==> spec_validate(part, parts, scale_milli) is Ok,
            r is Err ==> r->Err_0 == spec_validate(part, parts, scale_milli)->Err_0,
            r is Ok ==> {
                let (p, tp) = spec_validate(part, parts, scale_milli)->Ok_0;
                &&& r->Ok_0.table == *table
                &&& r->Ok_0.units@ == spec_plan_units(format, p, tp, scale_milli)
                &&& r->Ok_0.row_group_bytes as int == spec_row_group_bytes(
                    parquet_row_group_bytes,
                    scale_milli,
                )
                &&& r->Ok_0.wf()
            },
    {
        if part.is_some() && parts.is_none() {
            return Err(PlanError::PartWithoutParts);
        }
        if parts.is_some() && part.is_none() {
            return Err(PlanError::PartsWithoutPart);
        }
        let p: u64 = match part {
            Some(v) => v,
            None => 1,
        };
        let tp: u64 = match parts {
            Some(v) => v,
            None => 1,
        };
        if p == 0 {
            return Err(PlanError::PartZero { got: p });
        }
        if p > tp {
            return Err(PlanError::PartOutOfRange { parts: tp, got: p });
        }
        if scale_milli == 0 {
            return Err(PlanError::InvalidScaleFactor);
        }
        let units = build_units(format, p, tp, scale_milli);
        let row_group_bytes = effective_row_group_bytes(parquet_row_group_bytes, scale_milli);
        Ok(GenerationPlan { table: *table, units, row_group_bytes })
    }

    /// The table this plan generates.
    pub fn table(&self) -> (r: Table)
        ensures
            r == self.table,
    {
        self.table
    }

    /// The ordered units to render; their outputs, concatenated in this
    /// order, are the output of the request.
    pub fn units(&self) -> (r: &Vec<GenerationUnit>)
        ensures
            r@ == self.units@,
    {
        &self.units
    }

    /// How many units the plan holds.
    pub fn unit_count(&self) -> (r: usize)
        ensures
            r == self.units@.len(),
    {
        self.units.len()
    }

    /// The effective row-group byte target for columnar rendering.
    pub fn row_group_bytes(&self) -> (r: u64)
        ensures
            r == self.row_group_bytes,
    {
        self.row_group_bytes
    }
}

/// Computes how many units a whole-table columnar request is split into.
fn parquet_unit_count(scale_milli: u64) -> (c: u64)
    ensures
        c as int == spec_parquet_unit_count(scale_milli as int),
        1 <= c <= MAX_ROW_GROUPS_PER_FILE,
{
    if scale_milli > 4100000 {
        proof {
            vstd::arithmetic::div_mod::lemma_div_is_ordered(
                32800000,
                scale_milli as int * 8,
                1000,
            );
        }
        MAX_ROW_GROUPS_PER_FILE
    } else {
        let c = scale_milli * 8 / 1000;
        if c < 1 {
            1
        } else if c > MAX_ROW_GROUPS_PER_FILE {
            MAX_ROW_GROUPS_PER_FILE
        } else {
            c
        }
    }
}

/// Computes the effective row-group byte target for a request.
fn effective_row_group_bytes(target: i64, scale_milli: u64) -> (r: u64)
    ensures
        r as int == spec_row_group_bytes(target, scale_milli),
{
    let base: u64 = if target <= 0 {
        DEFAULT_PARQUET_ROW_GROUP_BYTES as u64
    } else {
        target as u64
    };
    let m: u64 = if scale_milli > MAX_SUPPORTED_SCALE_MILLI {
        MAX_SUPPORTED_SCALE_MILLI
    } else {
        scale_milli
    };
    proof {
        assert((m as int) * (ESTIMATED_TABLE_BYTES_PER_SCALE as int) <= (u64::MAX as int) * (
        u64::MAX as int)) by {
            vstd::arithmetic::mul::lemma_mul_upper_bound(
                m as int,
                u64::MAX as int,
                ESTIMATED_TABLE_BYTES_PER_SCALE as int,
                u64::MAX as int,
            );
        }
        assert((m as int) * (ESTIMATED_TABLE_BYTES_PER_SCALE as int) >= 0) by {
            vstd::arithmetic::mul::lemma_mul_nonnegative(
                m as int,
                ESTIMATED_TABLE_BYTES_PER_SCALE as int,
            );
        }
    }
    let est: u128 = m as u128 * ESTIMATED_TABLE_BYTES_PER_SCALE as u128 / 1000;
    proof {
        assert((m as int) * (ESTIMATED_TABLE_BYTES_PER_SCALE as int) <= (
        MAX_SUPPORTED_SCALE_MILLI as int) * (ESTIMATED_TABLE_BYTES_PER_SCALE as int)) by {
            vstd::arithmetic::mul::lemma_mul_inequality(
                m as int,
                MAX_SUPPORTED_SCALE_MILLI as int,
                ESTIMATED_TABLE_BYTES_PER_SCALE as int,
            );
            vstd::arithmetic::mul::lemma_mul_is_commutative(
                m as int,
                ESTIMATED_TABLE_BYTES_PER_SCALE as int,
            );
            vstd::arithmetic::mul::lemma_mul_is_commutative(
                MAX_SUPPORTED_SCALE_MILLI as int,
                ESTIMATED_TABLE_BYTES_PER_SCALE as int,
            );
        }
        assert(est as int <= 100000000000000000int) by {
            vstd::arithmetic::div_mod::lemma_div_is_ordered(
                (m as int) * (ESTIMATED_TABLE_BYTES_PER_SCALE as int),
                (MAX_SUPPORTED_SCALE_MILLI as int) * (ESTIMATED_TABLE_BYTES_PER_SCALE as int),
                1000,
            );
        }
    }
    let needed: u128 = (est + MAX_ROW_GROUPS_PER_FILE as u128 - 1) / (
    MAX_ROW_GROUPS_PER_FILE as u128);
    proof {
        assert(needed as int <= (100000000000000000int + MAX_ROW_GROUPS_PER_FILE as int - 1) / (
        MAX_ROW_GROUPS_PER_FILE as int)) by {
            vstd::arithmetic::div_mod::lemma_div_is_ordered(
                est as int + MAX_ROW_GROUPS_PER_FILE as int - 1,
                100000000000000000int + MAX_ROW_GROUPS_PER_FILE as int - 1,
                MAX_ROW_GROUPS_PER_FILE as int,
            );
        }
        assert(est as int >= 0);
        assert(needed as int >= 0) by {
            vstd::arithmetic::div_mod::lemma_div_pos_is_pos(
                est as int + MAX_ROW_GROUPS_PER_FILE as int - 1,
                MAX_ROW_GROUPS_PER_FILE as int,
            );
        }
    }
    let needed64: u64 = needed as u64;
    if base < needed64 {
        needed64
    } else {
        base
    }
}

/// Builds the ordered units for a validated request.
fn build_units(format: OutputFormat, p: u64, tp: u64, scale_milli: u64) -> (units: Vec<
    GenerationUnit,
>)
    requires
        1 <= p <= tp,
        scale_milli >= 1,
    ensures
        units@ == spec_plan_units(format, p, tp, scale_milli),
{
    if format == OutputFormat::Parquet && tp == 1 {
        let c = parquet_unit_count(scale_milli);
        let mut units: Vec<GenerationUnit> = Vec::new();
        let mut k: u64 = 0;
        while k < c
            invariant
                k <= c,
                c as int == spec_parquet_unit_count(scale_milli as int),
                units@ == Seq::new(
                    k as nat,
                    |i: int| (GenerationUnit { part: (i + 1) as u64, total_parts: c }),
                ),
            decreases c - k,
        {
            units.push(GenerationUnit { part: k + 1, total_parts: c });
            k = k + 1;
            proof {
                assert(units@ =~= Seq::new(
                    k as nat,
                    |i: int| (GenerationUnit { part: (i + 1) as u64, total_parts: c }),
                ));
            }
        }
        proof {
            assert(units@ =~= spec_plan_units(format, p, tp, scale_milli));
        }
        units
    } else {
        let mut units: Vec<GenerationUnit> = Vec::new();
        units.push(GenerationUnit { part: p, total_parts: tp });
        proof {
            assert(units@ =~= spec_plan_units(format, p, tp, scale_milli));
        }
        units
    }
}

} // verus!
