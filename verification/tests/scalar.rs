use geometry_kernel::errors::{ErrorCode, ErrorContext, KernelError};
use geometry_kernel::scalar::Scalar;
use geometry_kernel::string_map::StringMap;
use geometry_kernel::text::{
    decimal_text, sort_texts, starts_with, str_contains, str_eq, str_le_exec,
};

fn scalar(value: f64) -> Scalar {
    Scalar::from_bits(value.to_bits())
}

fn samples() -> Vec<f64> {
    vec![
        0.0,
        -0.0,
        1.0,
        -1.0,
        0.5,
        -0.5,
        0.125,
        1e-10,
        -1e-10,
        1e300,
        -1e300,
        f64::MIN_POSITIVE,
        -f64::MIN_POSITIVE,
        5e-324,
        -5e-324,
        f64::MAX,
        f64::MIN,
        f64::INFINITY,
        f64::NEG_INFINITY,
        f64::NAN,
        -f64::NAN,
        f64::from_bits(0x7FF0_0000_0000_0001),
        f64::from_bits(0xFFFF_FFFF_FFFF_FFFF),
        10.0,
        10.000000000000002,
        9.999999999999998,
    ]
}

#[test]
fn scalars_compare_as_doubles_do() {
    for a in samples() {
        assert_eq!(scalar(a).is_nan_exec(), a.is_nan(), "{:?}", a);
        assert_eq!(scalar(a).to_bits(), a.to_bits());
        for b in samples() {
            assert_eq!(scalar(a).lt_exec(&scalar(b)), a < b, "{:?} < {:?}", a, b);
            assert_eq!(scalar(a).le_exec(&scalar(b)), a <= b, "{:?} <= {:?}", a, b);
        }
    }
}

#[test]
fn singles_widen_to_the_doubles_of_their_value() {
    let samples: Vec<f32> = vec![
        0.0,
        -0.0,
        1.0,
        -1.0,
        0.1,
        -0.1,
        3.4028235e38,
        -3.4028235e38,
        1.17549435e-38,
        -1.17549435e-38,
        1e-45,
        -1e-45,
        2e-45,
        1.1754942e-38,
        5.877472e-39,
        7.0e-42,
        1.0e-40,
        f32::INFINITY,
        f32::NEG_INFINITY,
        0.5,
        1.5,
        123456.79,
        f32::EPSILON,
        16777216.0,
    ];
    for x in samples {
        assert_eq!(Scalar::from_single(x.to_bits()).to_bits(), (x as f64).to_bits(), "{:?}", x);
    }
    // Every subnormal with one bit set, and its neighbours.
    for bit in 0..23 {
        for bits in [1u32 << bit, (1u32 << bit) | 1, (1u32 << bit).wrapping_sub(1) & 0x7F_FFFF] {
            for sign in [0u32, 0x8000_0000] {
                let x = f32::from_bits(bits | sign);
                assert_eq!(
                    Scalar::from_single(x.to_bits()).to_bits(),
                    (x as f64).to_bits(),
                    "{:#x}",
                    bits | sign
                );
            }
        }
    }
    // A spread of bit patterns through all exponents.
    let mut bits: u32 = 0x0012_3457;
    for _ in 0..20000 {
        bits = bits.wrapping_mul(1664525).wrapping_add(1013904223);
        let x = f32::from_bits(bits);
        let wide = Scalar::from_single(bits);
        if x.is_nan() {
            assert!(wide.is_nan_exec());
        } else {
            assert_eq!(wide.to_bits(), (x as f64).to_bits(), "{:#x}", bits);
        }
    }
    assert!(Scalar::from_single(f32::NAN.to_bits()).is_nan_exec());
    assert!(Scalar::from_single(0x7F80_0001).is_nan_exec());
    assert!(Scalar::from_single(0xFFFF_FFFF).is_nan_exec());
}

#[test]
fn named_scalars_are_what_they_say() {
    assert_eq!(Scalar::zero(), scalar(0.0));
    assert_eq!(Scalar::one(), scalar(1.0));
    assert_eq!(Scalar::half(), scalar(0.5));
}

#[test]
fn texts_compare_as_strings_do() {
    let texts = ["", "a", "ab", "b", "B", "é", "z", "zz", "日本", "\u{10000}", "user_1", "user_"];
    for a in texts {
        for b in texts {
            assert_eq!(str_eq(a, b), a == b);
            assert_eq!(str_le_exec(a, b), a <= b, "{:?} <= {:?}", a, b);
            assert_eq!(starts_with(a, b), a.starts_with(b), "{:?} starts with {:?}", a, b);
            assert_eq!(str_contains(a, b), a.contains(b), "{:?} contains {:?}", a, b);
        }
    }
    assert!(str_contains("outer_radius_mm", "radius"));
    assert!(!str_contains("radiu", "radius"));
}

#[test]
fn sorting_texts_sorts_as_strings_sort() {
    let words: Vec<String> =
        ["pear", "apple", "fig", "apple", "", "Zebra", "éclair", "fig2"].iter().map(|w| w.to_string()).collect();
    let mut expected = words.clone();
    expected.sort();
    assert_eq!(sort_texts(&words), expected);
    assert_eq!(sort_texts(&Vec::new()), Vec::<String>::new());
}

#[test]
fn numbers_are_written_in_decimal() {
    for n in [0usize, 1, 9, 10, 11, 99, 100, 101, 12345, usize::MAX] {
        assert_eq!(decimal_text(n), n.to_string());
    }
}

#[test]
fn a_string_map_keeps_the_last_value_and_the_first_place() {
    let mut map: StringMap<u32> = StringMap::new();
    assert!(map.is_empty());
    map.insert("b".to_string(), 1);
    map.insert("a".to_string(), 2);
    map.insert("b".to_string(), 3);
    assert_eq!(map.len(), 2);
    assert_eq!(map.get("b"), Some(&3));
    assert_eq!(map.get("a"), Some(&2));
    assert_eq!(map.get("c"), None);
    assert!(map.contains_key("a"));
    assert!(!map.contains_key(""));
    assert_eq!((map.key_at(0).as_str(), *map.value_at(0)), ("b", 3));
    assert_eq!((map.key_at(1).as_str(), *map.value_at(1)), ("a", 2));
    let copy = map.clone();
    assert_eq!(copy.get("b"), Some(&3));
    map.clear();
    assert_eq!(map.len(), 0);
    assert_eq!(copy.len(), 2);
}

#[test]
fn every_error_code_has_its_name_and_its_constructor() {
    let cases = vec![
        (KernelError::invalid_json("m"), ErrorCode::InvalidJson, "INVALID_JSON", "m"),
        (KernelError::invalid_intent("m"), ErrorCode::InvalidIntent, "INVALID_INTENT", "m"),
        (
            KernelError::unknown_primitive("cube"),
            ErrorCode::UnknownPrimitive,
            "UNKNOWN_PRIMITIVE",
            "Unknown primitive type: cube",
        ),
        (
            KernelError::unknown_operation("weld"),
            ErrorCode::UnknownOperation,
            "UNKNOWN_OPERATION",
            "Unknown operation type: weld",
        ),
        (
            KernelError::missing_parameter("width"),
            ErrorCode::MissingParameter,
            "MISSING_PARAMETER",
            "Missing required parameter: width",
        ),
        (
            KernelError::invalid_parameter("width", "negative"),
            ErrorCode::InvalidParameter,
            "INVALID_PARAMETER",
            "Invalid parameter 'width': negative",
        ),
        (
            KernelError::circular_reference("n1"),
            ErrorCode::CircularReference,
            "CIRCULAR_REFERENCE",
            "Circular reference detected involving: n1",
        ),
        (KernelError::csg_error("m"), ErrorCode::CsgError, "CSG_ERROR", "m"),
        (
            KernelError::mesh_generation_error("m"),
            ErrorCode::MeshGenerationError,
            "MESH_GENERATION_ERROR",
            "m",
        ),
        (KernelError::step_export_error("m"), ErrorCode::StepExportError, "STEP_EXPORT_ERROR", "m"),
        (
            KernelError::constraint_violation("m"),
            ErrorCode::ConstraintViolation,
            "CONSTRAINT_VIOLATION",
            "m",
        ),
        (KernelError::topology_error("m"), ErrorCode::TopologyError, "TOPOLOGY_ERROR", "m"),
        (KernelError::internal("m"), ErrorCode::InternalError, "INTERNAL_ERROR", "m"),
        (
            KernelError::invalid_graph("m"),
            ErrorCode::InternalError,
            "INTERNAL_ERROR",
            "Invalid graph: m",
        ),
        (
            KernelError::node_not_found("n1"),
            ErrorCode::InternalError,
            "INTERNAL_ERROR",
            "Node not found: n1",
        ),
    ];
    for (error, code, name, message) in cases {
        assert_eq!(code.as_str(), name);
        assert_eq!(code.to_string(), name);
        assert_eq!(error.code, name);
        assert_eq!(error.message, message);
        assert!(error.context.is_none());
        assert!(error.hint.is_none());
        assert_eq!(error.to_string(), format!("[{}] {}", name, message));
    }
}

#[test]
fn an_error_carries_context_and_hint() {
    let context = ErrorContext::new()
        .with_operation("op1")
        .with_primitive("box")
        .with_parameter("width")
        .with_details("too thin");
    assert_eq!(context.operation_id.as_deref(), Some("op1"));
    assert_eq!(context.primitive_type.as_deref(), Some("box"));
    assert_eq!(context.parameter.as_deref(), Some("width"));
    assert_eq!(context.details.as_deref(), Some("too thin"));
    assert_eq!(context.line, None);
    let error = KernelError::new(ErrorCode::InvalidParameter, "bad")
        .with_context(context.clone())
        .with_hint("make it thicker");
    assert_eq!(error.context, Some(context));
    assert_eq!(error.hint.as_deref(), Some("make it thicker"));
    assert_eq!(error.message, "bad");
}
