use tungsten_core::negative::{generate_negative_case, generate_return_escape};
use tungsten_core::rng::Rng;

#[test]
fn negative_cases_from_seed() {
    let mut rng = Rng::seed(0xDEADBEEF);
    assert_eq!(generate_negative_case(&mut rng, 0), "\n        struct Secret0 {\n            key: i64,\n        }\n\n        fn attack_handler() {\n            let mut captured_ref = &Secret0 { key: 0 };\n            handle {\n                region r_suspended0 {\n                    let inner_sec = Secret0 { key: 59 };\n                    // Illegal escape across effect continuation boundary\n                    captured_ref = &inner_sec;\n                    IO::print(\"suspending inside region\");\n                };\n            } with IO {\n                print(msg) => 0\n            };\n        }\n\n        fn main() {\n            attack_handler();\n        }\n        ");
    assert_eq!(generate_negative_case(&mut rng, 1), "\n        struct StructNeg1 {\n            x: i64,\n            y: i64,\n        }\n\n        fn illegal_escape_fn() -> &StructNeg1 {\n            let s = StructNeg1 { x: 88, y: 53 };\n            &s\n        }\n\n        fn main() {\n            let _ = illegal_escape_fn();\n        }\n        ");
    assert_eq!(generate_negative_case(&mut rng, 2), "\n        struct Secret2 {\n            key: i64,\n        }\n\n        fn attack_handler() {\n            let mut captured_ref = &Secret2 { key: 0 };\n            handle {\n                region r_suspended2 {\n                    let inner_sec = Secret2 { key: 45 };\n                    // Illegal escape across effect continuation boundary\n                    captured_ref = &inner_sec;\n                    IO::print(\"suspending inside region\");\n                };\n            } with IO {\n                print(msg) => 0\n            };\n        }\n\n        fn main() {\n            attack_handler();\n        }\n        ");
    assert_eq!(generate_negative_case(&mut rng, 3), "\n        struct ObjNeg3 {\n            v: i64,\n        }\n\n        fn main() {\n            let global_holder = ObjNeg3 { v: 0 };\n            let mut escape_sink = &global_holder;\n            region r_inner3 {\n                let secret = ObjNeg3 { v: 62 };\n                // Illegal escape: assigning inner region reference to outer variable\n                escape_sink = &secret;\n            };\n        }\n        ");
    assert_eq!(generate_negative_case(&mut rng, 4), "\n        struct Secret4 {\n            key: i64,\n        }\n\n        fn attack_handler() {\n            let mut captured_ref = &Secret4 { key: 0 };\n            handle {\n                region r_suspended4 {\n                    let inner_sec = Secret4 { key: 63 };\n                    // Illegal escape across effect continuation boundary\n                    captured_ref = &inner_sec;\n                    IO::print(\"suspending inside region\");\n                };\n            } with IO {\n                print(msg) => 0\n            };\n        }\n\n        fn main() {\n            attack_handler();\n        }\n        ");
    assert_eq!(generate_negative_case(&mut rng, 5), "\n        struct Secret5 {\n            key: i64,\n        }\n\n        fn attack_handler() {\n            let mut captured_ref = &Secret5 { key: 0 };\n            handle {\n                region r_suspended5 {\n                    let inner_sec = Secret5 { key: 93 };\n                    // Illegal escape across effect continuation boundary\n                    captured_ref = &inner_sec;\n                    IO::print(\"suspending inside region\");\n                };\n            } with IO {\n                print(msg) => 0\n            };\n        }\n\n        fn main() {\n            attack_handler();\n        }\n        ");
}

#[test]
fn return_escape_text() {
    let mut rng = Rng::seed(42);
    let text = generate_return_escape(&mut rng, 12);
    assert_eq!(text, "\n        struct StructNeg12 {\n            x: i64,\n            y: i64,\n        }\n\n        fn illegal_escape_fn() -> &StructNeg12 {\n            let s = StructNeg12 { x: 52, y: 54 };\n            &s\n        }\n\n        fn main() {\n            let _ = illegal_escape_fn();\n        }\n        ");
    assert!(text.contains("fn illegal_escape_fn() -> &StructNeg12 {"));
}
