use canvas_geometry::error::MatrixError;
use canvas_geometry::matrix::DOMMatrix;
use canvas_geometry::transform_list::{parse_transform_list, TransformFunction, TransformKind};

fn args(f: &TransformFunction) -> Vec<&str> {
    f.args.iter().map(|a| a.as_str()).collect()
}

fn parse_error(s: &str) -> (String, bool) {
    match parse_transform_list(s) {
        Err(MatrixError::ParseError { segment, unknown_function }) => (segment, unknown_function),
        other => panic!("expected a parse error, got {:?}", other),
    }
}

fn accepts_number(token: &str) -> bool {
    parse_transform_list(&format!("matrix({},0,0,0,0,0)", token)).is_ok()
}

#[test]
fn empty_list_has_no_calls() {
    assert!(parse_transform_list("").unwrap().is_empty());
    assert!(parse_transform_list("   \t\n").unwrap().is_empty());
    assert!(parse_transform_list("\u{3000}").unwrap().is_empty());
}

#[test]
fn matrix_call_gives_translation() {
    let fs = parse_transform_list("matrix(1,0,0,1,10,20)").unwrap();
    assert_eq!(fs.len(), 1);
    assert_eq!(fs[0].kind, TransformKind::Matrix);
    assert_eq!(args(&fs[0]), vec!["1", "0", "0", "1", "10", "20"]);
    let values: Vec<u64> = fs[0].args.iter().map(|a| a.parse::<f64>().unwrap().to_bits()).collect();
    let m = DOMMatrix::from_values(values).unwrap();
    assert_eq!(f64::from_bits(m.get_e()), 10.0);
    assert_eq!(f64::from_bits(m.get_f()), 20.0);
    assert!(m.is_2d());
}

#[test]
fn matrix3d_call() {
    let text = "matrix3d(1, 0, 0, 0, 0, 1, 0, 0, 0, 0, 1, 0, 5, 6, 7, 1)";
    let fs = parse_transform_list(text).unwrap();
    assert_eq!(fs.len(), 1);
    assert_eq!(fs[0].kind, TransformKind::Matrix3d);
    assert_eq!(fs[0].args.len(), 16);
    assert_eq!(fs[0].args[14], "7");
}

#[test]
fn arguments_are_trimmed() {
    let fs = parse_transform_list("  matrix( 1 ,2,\t3 , 4,5 ,6 )  ").unwrap();
    assert_eq!(args(&fs[0]), vec!["1", "2", "3", "4", "5", "6"]);
}

#[test]
fn several_calls_in_order() {
    let fs = parse_transform_list("matrix(1,0,0,1,0,0) matrix3d(1,0,0,0,0,1,0,0,0,0,1,0,0,0,0,1)\nmatrix(2,0,0,2,0,0)").unwrap();
    let kinds: Vec<TransformKind> = fs.iter().map(|f| f.kind).collect();
    assert_eq!(kinds, vec![TransformKind::Matrix, TransformKind::Matrix3d, TransformKind::Matrix]);
    assert_eq!(fs[2].args[0], "2");
}

#[test]
fn unknown_function_is_refused() {
    assert_eq!(parse_error("translate(10px, 20px)"), ("translate(10px, 20px)".to_string(), true));
    assert_eq!(parse_error("matrix(1,0,0,1,0,0) rotate(45deg)"), ("rotate(45deg)".to_string(), true));
    assert_eq!(parse_error("Matrix(1,0,0,1,0,0)"), ("Matrix(1,0,0,1,0,0)".to_string(), true));
}

#[test]
fn wrong_arity_is_refused() {
    assert_eq!(parse_error("matrix(1,2,3)"), ("matrix(1,2,3)".to_string(), false));
    assert_eq!(parse_error("matrix()"), ("matrix()".to_string(), false));
    assert_eq!(parse_error("matrix3d(1,0,0,1,0,0)"), ("matrix3d(1,0,0,1,0,0)".to_string(), false));
}

#[test]
fn non_numeric_argument_is_refused() {
    assert_eq!(parse_error("matrix(1,0,0,1,0,x)"), ("matrix(1,0,0,1,0,x)".to_string(), false));
    assert_eq!(parse_error("matrix(1,0,0,1,0,10px)"), ("matrix(1,0,0,1,0,10px)".to_string(), false));
    assert_eq!(parse_error("matrix(1 2,0,0,1,0,0,0)"), ("matrix(1 2,0,0,1,0,0,0)".to_string(), false));
}

#[test]
fn first_bad_piece_decides() {
    assert_eq!(parse_error("matrix(1,2) translate(1)"), ("matrix(1,2)".to_string(), false));
    assert_eq!(parse_error("scale(2) matrix(1,2)"), ("scale(2)".to_string(), true));
}

#[test]
fn separator_text_is_refused() {
    assert_eq!(
        parse_error("matrix(1,0,0,1,0,0), matrix(1,0,0,1,0,0)"),
        (", matrix(1,0,0,1,0,0)".to_string(), true)
    );
}

#[test]
fn many_calls_are_read() {
    let fs = parse_transform_list(&"matrix(1,0,0,1,1,0) ".repeat(20)).unwrap();
    assert_eq!(fs.len(), 20);
    assert!(fs.iter().all(|f| f.kind == TransformKind::Matrix && f.args[4] == "1"));
    let fs = parse_transform_list(&"matrix(1,0,0,1,0,0)".repeat(45)).unwrap();
    assert_eq!(fs.len(), 45);
}

#[test]
fn unclosed_call_is_refused() {
    assert_eq!(parse_error("matrix(1,0,0,1,10,20"), ("matrix(1,0,0,1,10,20".to_string(), false));
    assert_eq!(
        parse_error("matrix(1,0,0,1,0,0) matrix(1,0,0,1,0,0 "),
        ("matrix(1,0,0,1,0,0".to_string(), false)
    );
    assert_eq!(parse_error("matrix(1,0,0,1,0,0) x"), ("x".to_string(), false));
    assert!(parse_transform_list("matrix(1,0,0,1,0,0) \n ").is_ok());
}

#[test]
fn earlier_error_beats_unclosed_tail() {
    assert_eq!(parse_error("scale(2) matrix(1"), ("scale(2)".to_string(), true));
}

#[test]
fn number_texts() {
    for t in ["1", "-1", "+1", "1.", ".5", "-.5", "1e3", "1E-3", "2.5e+10", "inf", "-INF", "Infinity", "NaN", "nAn", "007"] {
        assert!(accepts_number(t), "{} should be a number", t);
    }
    for t in ["", ".", "e5", "1e", "1e+", "1.2.3", "0x10", "1_0", "--1", "+-1", "infinit", "nan1", "1f"] {
        assert!(!accepts_number(t), "{} should not be a number", t);
    }
}

#[test]
fn number_texts_agree_with_std() {
    let tokens = [
        "0", "-0", "12.", ".0", "1e10", "1E", "e", "E1", "+inf", "-nan", "INFINITY", "inF", "3.14e-2", ".e1",
        "5.e1", "1.5E+", "+", "-", "1e1.5", "\u{661}",
    ];
    for t in tokens {
        assert_eq!(accepts_number(t), t.parse::<f64>().is_ok(), "{}", t);
    }
}
