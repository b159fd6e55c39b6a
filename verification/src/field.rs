use vstd::prelude::*;

use crate::error::KspaceError;

verus! {

/// The closed vocabulary of supported encoding-field shapes: analytic
/// scalar functions of a two-dimensional position `(x, y)`.
#[derive(Clone, Copy, Debug, PartialEq, Eq, Structural)]
pub enum EncodingField {
    /// The linear ramp `x`.
    X,
    /// The linear ramp `y`.
    Y,
    /// The quadratic form `x^2 + y^2`.
    X2pY2,
    /// The quadratic form `x^2 - y^2`.
    X2mY2,
    /// The product field, with gradient `(2y, 2x)`.
    X2Y2,
}

/// Magnitude bound accepted for evaluation-point coordinates and sample
/// values. It keeps every product and sum of the pipeline inside `i64`.
pub const COORD_BOUND: i64 = 1048576;

/// The fixed spatial position at which all gradients are evaluated for
/// one run. Supplied once at startup and never changed.
#[derive(Clone, Copy, Debug, PartialEq, Eq, Structural)]
pub struct EvaluationPoint {
    /// First coordinate.
    pub x: i64,
    /// Second coordinate.
    pub y: i64,
}

impl EvaluationPoint {
    /// Both coordinates lie within [`COORD_BOUND`].
    pub open spec fn bounded(self) -> bool {
        -COORD_BOUND <= self.x <= COORD_BOUND && -COORD_BOUND <= self.y <= COORD_BOUND
    }
}

/// The gradient `(∂field/∂x, ∂field/∂y)` of one encoding field,
/// evaluated at the run's [`EvaluationPoint`]. One per input column.
#[derive(Clone, Copy, Debug, PartialEq, Eq, Structural)]
pub struct DerivativeVector {
    /// Partial derivative with respect to `x`.
    pub dx: i64,
    /// Partial derivative with respect to `y`.
    pub dy: i64,
}

impl DerivativeVector {
    /// Both components lie within twice [`COORD_BOUND`], as every entry
    /// of the derivative table does at a bounded point.
    pub open spec fn bounded(self) -> bool {
        -2 * COORD_BOUND <= self.dx <= 2 * COORD_BOUND && -2 * COORD_BOUND <= self.dy
            <= 2 * COORD_BOUND
    }
}

/// The `∂/∂x` column of the closed derivative table at `(x, y)`.
pub open spec fn spec_ddx(f: EncodingField, x: int, y: int) -> int {
    match f {
        EncodingField::X => 1,
        EncodingField::Y => 0,
        EncodingField::X2pY2 => x,
        EncodingField::X2mY2 => 2 * x,
        EncodingField::X2Y2 => 2 * y,
    }
}

/// The `∂/∂y` column of the closed derivative table at `(x, y)`.
pub open spec fn spec_ddy(f: EncodingField, x: int, y: int) -> int {
    match f {
        EncodingField::X => 0,
        EncodingField::Y => 1,
        EncodingField::X2pY2 => y,
        EncodingField::X2mY2 => -(2 * y),
        EncodingField::X2Y2 => 2 * x,
    }
}

/// Case-insensitive equality of two characters, folding only the ASCII
/// uppercase letters. Name matching is therefore ASCII-case-insensitive:
/// the right-hand side is expected to be an ASCII lowercase pattern.
pub open spec fn char_ci_eq(a: char, b: char) -> bool {
    a as u32 == b as u32 || (65 <= a as u32 <= 90 && a as u32 + 32 == b as u32)
}

/// `s` equals the (ASCII lowercase) pattern `t` up to ASCII case.
pub open spec fn matches_ci(s: Seq<char>, t: Seq<char>) -> bool {
    s.len() == t.len() && forall|i: int| 0 <= i < s.len() ==> #[trigger] char_ci_eq(s[i], t[i])
}

/// The shape a header name denotes, if any. A name is recognized
/// exactly when it equals one of the five shape identifiers up to
/// ASCII case.
pub open spec fn field_of_name(s: Seq<char>) -> Option<EncodingField> {
    if matches_ci(s, "x"@) {
        Some(EncodingField::X)
    } else if matches_ci(s, "y"@) {
        Some(EncodingField::Y)
    } else if matches_ci(s, "x2py2"@) {
        Some(EncodingField::X2pY2)
    } else if matches_ci(s, "x2my2"@) {
        Some(EncodingField::X2mY2)
    } else if matches_ci(s, "x2y2"@) {
        Some(EncodingField::X2Y2)
    } else {
        None
    }
}

/// Compares `name` to the ASCII lowercase pattern `target`, ignoring
/// ASCII case in `name`.
fn name_matches_ci(name: &str, target: &str) -> (r: bool)
    ensures
        r == matches_ci(name@, target@),
{
    let n = name.unicode_len();
    if n != target.unicode_len() {
        return false;
    }
    for i in 0..n
        invariant
            n == name@.len(),
            n == target@.len(),
            forall|j: int| 0 <= j < i ==> #[trigger] char_ci_eq(name@[j], target@[j]),
    {
        let a = name.get_char(i) as u32;
        let b = target.get_char(i) as u32;
        if !(a == b || (65 <= a && a <= 90 && a + 32 == b)) {
            assert(!char_ci_eq(name@[i as int], target@[i as int]));
            return false;
        }
    }
    true
}

impl EncodingField {
    /// Resolves a field-shape name. Matching is ASCII-case-insensitive,
    /// so `"X2mY2"`, `"x2my2"` and `"X2MY2"` all name the same shape;
    /// any other name is rejected with [`KspaceError::UnknownField`].
    pub fn from_name(name: &str) -> (r: Result<EncodingField, KspaceError>)
        ensures
            r == match field_of_name(name@) {
                Some(f) => Result::<EncodingField, KspaceError>::Ok(f),
                None => Result::<EncodingField, KspaceError>::Err(KspaceError::UnknownField),
            },
    {
        if name_matches_ci(name, "x") {
            Ok(EncodingField::X)
        } else if name_matches_ci(name, "y") {
            Ok(EncodingField::Y)
        } else if name_matches_ci(name, "x2py2") {
            Ok(EncodingField::X2pY2)
        } else if name_matches_ci(name, "x2my2") {
            Ok(EncodingField::X2mY2)
        } else if name_matches_ci(name, "x2y2") {
            Ok(EncodingField::X2Y2)
        } else {
            Err(KspaceError::UnknownField)
        }
    }

    /// The analytic gradient of this shape at `pos`, following the
    /// closed derivative table exactly. Total and pure: never fails.
    pub fn derivative_at(&self, pos: &EvaluationPoint) -> (d: DerivativeVector)
        requires
            pos.bounded(),
        ensures
            d.dx as int == spec_ddx(*self, pos.x as int, pos.y as int),
            d.dy as int == spec_ddy(*self, pos.x as int, pos.y as int),
            d.bounded(),
    {
        match *self {
            EncodingField::X => (DerivativeVector { dx: 1, dy: 0 }),
            EncodingField::Y => (DerivativeVector { dx: 0, dy: 1 }),
            EncodingField::X2pY2 => (DerivativeVector { dx: pos.x, dy: pos.y }),
            EncodingField::X2mY2 => (DerivativeVector { dx: 2 * pos.x, dy: -(2 * pos.y) }),
            EncodingField::X2Y2 => (DerivativeVector { dx: 2 * pos.y, dy: 2 * pos.x }),
        }
    }
}

/// One resolved column: `name` denotes a recognized shape whose exact
/// gradient at `p` is `d`.
pub open spec fn resolves_to(name: Seq<char>, d: DerivativeVector, p: EvaluationPoint) -> bool {
    &&& field_of_name(name).is_some()
    &&& d.dx as int == spec_ddx(field_of_name(name).unwrap(), p.x as int, p.y as int)
    &&& d.dy as int == spec_ddy(field_of_name(name).unwrap(), p.x as int, p.y as int)
    &&& d.bounded()
}

/// Resolves a whole header at once: one derivative vector per column,
/// in column order. Fails with [`KspaceError::UnknownField`] exactly
/// when some header name is not a recognized shape, and then resolves
/// nothing.
pub fn resolve_derivatives(names: &Vec<String>, pos: &EvaluationPoint) -> (r: Result<
    Vec<DerivativeVector>,
    KspaceError,
>)
    requires
        pos.bounded(),
    ensures
        r.is_ok() <==> (forall|i: int|
            0 <= i < names@.len() ==> (#[trigger] field_of_name(names@[i]@)).is_some()),
        r matches Ok(d) ==> {
            &&& d@.len() == names@.len()
            &&& forall|i: int|
                0 <= i < names@.len() ==> #[trigger] resolves_to(names@[i]@, d@[i], *pos)
        },
        r matches Err(e) ==> e == KspaceError::UnknownField,
{
    let mut out: Vec<DerivativeVector> = Vec::new();
    let n = names.len();
    for i in 0..n
        invariant
            n == names@.len(),
            out@.len() == i,
            pos.bounded(),
            forall|j: int| 0 <= j < i ==> (#[trigger] field_of_name(names@[j]@)).is_some(),
            forall|j: int| 0 <= j < i ==> #[trigger] resolves_to(names@[j]@, out@[j], *pos),
    {
        match EncodingField::from_name(names[i].as_str()) {
            Ok(f) => {
                let d = f.derivative_at(pos);
                out.push(d);
            },
            Err(e) => {
                return Err(e);
            },
        }
    }
    Ok(out)
}

} // verus!
