use localkspace::error::KspaceError;
use localkspace::field::resolve_derivatives;
use localkspace::field::DerivativeVector;
use localkspace::field::EncodingField;
use localkspace::field::EvaluationPoint;
use localkspace::project::localkspace;

fn names(list: &[&str]) -> Vec<String> {
    list.iter().map(|s| s.to_string()).collect()
}

#[test]
fn from_name_recognizes_all_shapes() {
    assert_eq!(EncodingField::from_name("x"), Ok(EncodingField::X));
    assert_eq!(EncodingField::from_name("X"), Ok(EncodingField::X));
    assert_eq!(EncodingField::from_name("y"), Ok(EncodingField::Y));
    assert_eq!(EncodingField::from_name("Y"), Ok(EncodingField::Y));
    assert_eq!(EncodingField::from_name("x2py2"), Ok(EncodingField::X2pY2));
    assert_eq!(EncodingField::from_name("X2pY2"), Ok(EncodingField::X2pY2));
    assert_eq!(EncodingField::from_name("X2PY2"), Ok(EncodingField::X2pY2));
    assert_eq!(EncodingField::from_name("x2my2"), Ok(EncodingField::X2mY2));
    assert_eq!(EncodingField::from_name("X2mY2"), Ok(EncodingField::X2mY2));
    assert_eq!(EncodingField::from_name("x2y2"), Ok(EncodingField::X2Y2));
    assert_eq!(EncodingField::from_name("X2Y2"), Ok(EncodingField::X2Y2));
}

#[test]
fn from_name_rejects_unknown() {
    assert_eq!(
        EncodingField::from_name("z"),
        Err(KspaceError::UnknownField)
    );
    assert_eq!(
        EncodingField::from_name(""),
        Err(KspaceError::UnknownField)
    );
    assert_eq!(
        EncodingField::from_name("xx"),
        Err(KspaceError::UnknownField)
    );
    assert_eq!(
        EncodingField::from_name("x2py2x"),
        Err(KspaceError::UnknownField)
    );
    assert_eq!(
        EncodingField::from_name("x2 y2"),
        Err(KspaceError::UnknownField)
    );
}

#[test]
fn derivative_table_at_point() {
    let p = EvaluationPoint { x: 2, y: 3 };
    let d = EncodingField::X.derivative_at(&p);
    assert_eq!((d.dx, d.dy), (1, 0));
    let d = EncodingField::Y.derivative_at(&p);
    assert_eq!((d.dx, d.dy), (0, 1));
    let d = EncodingField::X2pY2.derivative_at(&p);
    assert_eq!((d.dx, d.dy), (2, 3));
    let d = EncodingField::X2mY2.derivative_at(&p);
    assert_eq!((d.dx, d.dy), (4, -6));
    let d = EncodingField::X2Y2.derivative_at(&p);
    assert_eq!((d.dx, d.dy), (6, 4));
}

#[test]
fn single_column_identity() {
    let derivs = vec![DerivativeVector { dx: 1, dy: 0 }];
    for v in [42i64, -7, 0, 1048576] {
        let k = localkspace(&vec![v], &derivs).unwrap();
        assert_eq!((k.k1, k.k2), (v, 0));
    }
}

#[test]
fn round_trip_header_x_y() {
    let p = EvaluationPoint { x: 2, y: 3 };
    let derivs = resolve_derivatives(&names(&["X", "Y"]), &p).unwrap();
    assert_eq!((derivs[0].dx, derivs[0].dy), (1, 0));
    assert_eq!((derivs[1].dx, derivs[1].dy), (0, 1));
    let k = localkspace(&vec![5, 7], &derivs).unwrap();
    assert_eq!((k.k1, k.k2), (5, 7));
}

#[test]
fn x2my2_column_projects_scaled_gradient() {
    let p = EvaluationPoint { x: 2, y: 3 };
    let derivs = resolve_derivatives(&names(&["X2mY2"]), &p).unwrap();
    assert_eq!((derivs[0].dx, derivs[0].dy), (4, -6));
    let k = localkspace(&vec![10], &derivs).unwrap();
    assert_eq!((k.k1, k.k2), (40, -60));
}

#[test]
fn projection_is_linear_in_the_sample() {
    let p = EvaluationPoint { x: 2, y: 3 };
    let derivs = resolve_derivatives(&names(&["X2pY2", "X2Y2"]), &p).unwrap();
    let s1 = vec![1i64, 2];
    let s2 = vec![3i64, 4];
    let (a, b) = (2i64, 3i64);
    let combo: Vec<i64> = s1
        .iter()
        .zip(s2.iter())
        .map(|(u, v)| a * u + b * v)
        .collect();
    let k_combo = localkspace(&combo, &derivs).unwrap();
    let k1 = localkspace(&s1, &derivs).unwrap();
    let k2 = localkspace(&s2, &derivs).unwrap();
    assert_eq!(k_combo.k1, a * k1.k1 + b * k2.k1);
    assert_eq!(k_combo.k2, a * k1.k2 + b * k2.k2);
}

#[test]
fn dimension_mismatch_yields_no_output() {
    let p = EvaluationPoint { x: 2, y: 3 };
    let derivs = resolve_derivatives(&names(&["X", "Y"]), &p).unwrap();
    assert_eq!(
        localkspace(&vec![1], &derivs),
        Err(KspaceError::DimensionMismatch)
    );
    assert_eq!(
        localkspace(&vec![1, 2, 3], &derivs),
        Err(KspaceError::DimensionMismatch)
    );
    assert_eq!(
        localkspace(&Vec::new(), &derivs),
        Err(KspaceError::DimensionMismatch)
    );
}

#[test]
fn unknown_header_name_resolves_nothing() {
    let p = EvaluationPoint { x: 2, y: 3 };
    assert_eq!(
        resolve_derivatives(&names(&["X", "Zq"]), &p),
        Err(KspaceError::UnknownField)
    );
    assert_eq!(
        resolve_derivatives(&names(&["banana"]), &p),
        Err(KspaceError::UnknownField)
    );
}

#[test]
fn empty_header_and_empty_row() {
    let p = EvaluationPoint { x: 2, y: 3 };
    let derivs = resolve_derivatives(&names(&[]), &p).unwrap();
    assert_eq!(derivs.len(), 0);
    let k = localkspace(&Vec::new(), &derivs).unwrap();
    assert_eq!((k.k1, k.k2), (0, 0));
}

#[test]
fn largest_allowed_magnitudes_do_not_overflow() {
    let bound: i64 = localkspace::field::COORD_BOUND;
    let p = EvaluationPoint {
        x: bound,
        y: -bound,
    };
    let derivs = resolve_derivatives(&names(&["X2mY2", "X2Y2"]), &p).unwrap();
    assert_eq!((derivs[0].dx, derivs[0].dy), (2 * bound, 2 * bound));
    assert_eq!((derivs[1].dx, derivs[1].dy), (-2 * bound, 2 * bound));
    let k = localkspace(&vec![bound, bound], &derivs).unwrap();
    assert_eq!(k.k1, 0);
    assert_eq!(k.k2, 4 * bound * bound);
}
