use vstd::prelude::*;

verus! {

/// Bytes and records retained by one owner, charged against a capacity of the same shape.
#[derive(Clone, Copy, Debug, Default, PartialEq, Eq, Structural)]
pub struct RangeSurfaceCharge {
    /// Retained bytes.
    pub bytes: usize,
    /// Retained records.
    pub items: usize,
}

/// Whether `charge` fits under `limit` in both dimensions.
pub open spec fn fits(charge: RangeSurfaceCharge, limit: RangeSurfaceCharge) -> bool {
    charge.bytes <= limit.bytes && charge.items <= limit.items
}

/// Reports whether `charge` fits under `limit` in both dimensions.
pub fn charge_fits(charge: RangeSurfaceCharge, limit: RangeSurfaceCharge) -> (r: bool)
    ensures
        r == fits(charge, limit),
{
    charge.bytes <= limit.bytes && charge.items <= limit.items
}

/// Scales a charge by `count`; `None` when either dimension leaves `usize`.
pub fn multiply_charge(charge: RangeSurfaceCharge, count: usize) -> (r: Option<
    RangeSurfaceCharge,
>)
    ensures
        match r {
            Some(product) => product.bytes == charge.bytes * count && product.items
                == charge.items * count,
            None => charge.bytes * count > usize::MAX || charge.items * count > usize::MAX,
        },
{
    let bytes = match charge.bytes.checked_mul(count) {
        Some(value) => value,
        None => {
            return None;
        },
    };
    let items = match charge.items.checked_mul(count) {
        Some(value) => value,
        None => {
            return None;
        },
    };
    Some(RangeSurfaceCharge { bytes, items })
}

/// The charge of an owner's nested contents once its own inline record of `inline_bytes`
/// is removed; `None` when the charge does not include such a record.
pub fn nested_owner_charge(charge: RangeSurfaceCharge, inline_bytes: usize) -> (r: Option<
    RangeSurfaceCharge,
>)
    ensures
        match r {
            Some(nested) => nested.bytes == charge.bytes - inline_bytes && nested.items
                == charge.items - 1,
            None => charge.bytes < inline_bytes || charge.items < 1,
        },
{
    let bytes = match charge.bytes.checked_sub(inline_bytes) {
        Some(value) => value,
        None => {
            return None;
        },
    };
    let items = match charge.items.checked_sub(1) {
        Some(value) => value,
        None => {
            return None;
        },
    };
    Some(RangeSurfaceCharge { bytes, items })
}

/// The charge of both dimensions capped by a configured limit.
pub fn capped_charge(available: RangeSurfaceCharge, configured: RangeSurfaceCharge) -> (r:
    RangeSurfaceCharge)
    ensures
        r.bytes == if available.bytes < configured.bytes {
            available.bytes
        } else {
            configured.bytes
        },
        r.items == if available.items < configured.items {
            available.items
        } else {
            configured.items
        },
        fits(r, configured),
        fits(r, available),
{
    RangeSurfaceCharge {
        bytes: if available.bytes < configured.bytes {
            available.bytes
        } else {
            configured.bytes
        },
        items: if available.items < configured.items {
            available.items
        } else {
            configured.items
        },
    }
}

/// Adding a charge and scaling a charge agree: charging `count + 1` copies is charging
/// `count` copies and one more.
pub proof fn lemma_multiply_then_add(charge: RangeSurfaceCharge, count: nat)
    ensures
        charge.bytes * (count + 1) == charge.bytes * count + charge.bytes,
        charge.items * (count + 1) == charge.items * count + charge.items,
{
    assert(charge.bytes * (count + 1) == charge.bytes * count + charge.bytes) by (nonlinear_arith);
    assert(charge.items * (count + 1) == charge.items * count + charge.items) by (nonlinear_arith);
}

/// A charge that fits under a limit still fits once its inline record is removed.
pub proof fn lemma_nested_fits(
    charge: RangeSurfaceCharge,
    nested: RangeSurfaceCharge,
    inline_bytes: usize,
    limit: RangeSurfaceCharge,
)
    requires
        fits(charge, limit),
        nested.bytes == charge.bytes - inline_bytes,
        nested.items == charge.items - 1,
        charge.bytes >= inline_bytes,
        charge.items >= 1,
    ensures
        fits(nested, limit),
{
}

} // verus!
