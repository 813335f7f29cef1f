use tungsten_core::generator::ProgramGenerator;
use tungsten_core::rng::Rng;

#[test]
fn seed_42_programs() {
    let mut g = ProgramGenerator::new(Rng::seed(42));
    assert!(g.has_id_room());
    let first = g.generate_valid_program();
    assert_eq!(first, "struct Schema0 {\n    f0: i64,\n    f1: i64,\n}\n\nstruct Schema1 {\n    f0: i64,\n}\n\ntype Percentage = u8(0..=100);\n\nfn compute_struct_sum(p: &Schema0) -> i64 {\n    p.f0 + p.f1\n}\n\nfn compute_scalar(v: i64) -> i64 {\n    v * 2 + 1\n}\n\nfn compute_refined_edge(val: i64) -> i64 {\n    let p: Percentage = val as Percentage;\n    p\n}\n\nfn main() -> i64 yields [IO] {\n    let total = region r0 {\n        let v0 = Schema1 {\n            f0: 79,\n        };\n        let v1 = Schema0 {\n            f0: 96,\n            f1: 69,\n        };\n        let v2 = Schema0 {\n            f0: 50,\n            f1: 77,\n        };\n        let mut acc3 = v0.f0;\n        let sub_res4 = region sub_r1 {\n            let sub_v5 = Schema1 {\n                f0: 20,\n            };\n            let mut local_sum = sub_v5.f0;\n            local_sum = local_sum + compute_scalar(5);\n            local_sum\n        };\n        acc3 = acc3 + sub_res4;\n        acc3 = acc3 + compute_refined_edge(100);\n        IO::print(\"region-progress\");\n        acc3\n    };\n    handle {\n        IO::print(\"completed-region-trace\");\n    } with IO {\n        print(msg) => 0\n    };\n    total\n}\n");
    let second = g.generate_valid_program();
    assert_eq!(second, "struct Schema0 {\n    f0: i64,\n}\n\ntype Percentage = u8(0..=100);\n\nfn compute_struct_sum(p: &Schema0) -> i64 {\n    p.f0\n}\n\nfn compute_scalar(v: i64) -> i64 {\n    v * 2 + 1\n}\n\nfn compute_refined_edge(val: i64) -> i64 {\n    let p: Percentage = val as Percentage;\n    p\n}\n\nfn main() -> i64 yields [IO] {\n    let total = region r2 {\n        let v6 = Schema0 {\n            f0: 52,\n        };\n        let mut acc7 = v6.f0;\n        acc7 = acc7 + compute_struct_sum(&v6);\n        let sub_res8 = region sub_r3 {\n            let sub_v9 = Schema0 {\n                f0: 50,\n            };\n            let mut local_sum = sub_v9.f0;\n            local_sum = local_sum + compute_scalar(5);\n            local_sum\n        };\n        acc7 = acc7 + sub_res8;\n        acc7 = acc7 + compute_refined_edge(0);\n        IO::print(\"region-progress\");\n        acc7\n    };\n    handle {\n        IO::print(\"completed-region-trace\");\n    } with IO {\n        print(msg) => 0\n    };\n    total\n}\n");
}

#[test]
fn seed_7_programs() {
    let mut g = ProgramGenerator::new(Rng::seed(7));
    assert_eq!(g.generate_valid_program(), "struct Schema0 {\n    f0: i64,\n}\n\nstruct Schema1 {\n    f0: i64,\n    f1: i64,\n    f2: i64,\n}\n\nstruct Schema2 {\n    f0: i64,\n}\n\ntype Percentage = u8(0..=100);\n\nfn compute_struct_sum(p: &Schema0) -> i64 {\n    p.f0\n}\n\nfn compute_scalar(v: i64) -> i64 {\n    v * 2 + 1\n}\n\nfn compute_refined_edge(val: i64) -> i64 {\n    let p: Percentage = val as Percentage;\n    p\n}\n\nfn main() -> i64 yields [IO] {\n    let total = region r0 {\n        let v0 = Schema0 {\n            f0: 73,\n        };\n        let mut acc1 = v0.f0;\n        acc1 = acc1 + compute_struct_sum(&v0);\n        let sub_res2 = region sub_r1 {\n            let sub_v3 = Schema0 {\n                f0: 20,\n            };\n            let mut local_sum = sub_v3.f0;\n            local_sum = local_sum + compute_scalar(5);\n            local_sum\n        };\n        acc1 = acc1 + sub_res2;\n        acc1 = acc1 + compute_refined_edge(0);\n        IO::print(\"region-progress\");\n        acc1\n    };\n    handle {\n        IO::print(\"completed-region-trace\");\n    } with IO {\n        print(msg) => 0\n    };\n    total\n}\n");
    assert_eq!(g.generate_valid_program(), "struct Schema0 {\n    f0: i64,\n    f1: i64,\n    f2: i64,\n    f3: i64,\n}\n\nstruct Schema1 {\n    f0: i64,\n    f1: i64,\n    f2: i64,\n    f3: i64,\n}\n\nstruct Schema2 {\n    f0: i64,\n    f1: i64,\n    f2: i64,\n    f3: i64,\n}\n\ntype Percentage = u8(0..=100);\n\nfn compute_struct_sum(p: &Schema0) -> i64 {\n    p.f0 + p.f1 + p.f2 + p.f3\n}\n\nfn compute_scalar(v: i64) -> i64 {\n    v * 2 + 1\n}\n\nfn compute_refined_edge(val: i64) -> i64 {\n    let p: Percentage = val as Percentage;\n    p\n}\n\nfn main() -> i64 yields [IO] {\n    let total = region r2 {\n        let v4 = Schema0 {\n            f0: 61,\n            f1: 45,\n            f2: 61,\n            f3: 64,\n        };\n        let mut acc5 = v4.f0;\n        acc5 = acc5 + compute_struct_sum(&v4);\n        let sub_res6 = region sub_r3 {\n            let sub_v7 = Schema0 {\n                f0: 43,\n                f1: 35,\n                f2: 22,\n                f3: 18,\n            };\n            let mut local_sum = sub_v7.f0;\n            local_sum = local_sum + region sub_r4 {\n                let sub_v8 = Schema1 {\n                    f0: 37,\n                    f1: 37,\n                    f2: 14,\n                    f3: 11,\n                };\n                let mut local_sum = sub_v8.f0;\n                local_sum = local_sum + compute_scalar(5);\n                local_sum\n            };\n            local_sum\n        };\n        acc5 = acc5 + sub_res6;\n        acc5 = acc5 + compute_refined_edge(52);\n        IO::print(\"region-progress\");\n        acc5\n    };\n    handle {\n        IO::print(\"completed-region-trace\");\n    } with IO {\n        print(msg) => 0\n    };\n    total\n}\n");
}

#[test]
fn same_seed_same_program() {
    let mut a = ProgramGenerator::new(Rng::seed(1234));
    let mut b = ProgramGenerator::new(Rng::seed(1234));
    for _ in 0..5 {
        assert_eq!(a.generate_valid_program(), b.generate_valid_program());
    }
}

#[test]
fn programs_have_the_fixed_frame() {
    let mut g = ProgramGenerator::new(Rng::seed(99));
    for _ in 0..20 {
        let p = g.generate_valid_program();
        assert!(p.starts_with("struct Schema0 {\n"));
        assert!(p.contains("type Percentage = u8(0..=100);"));
        assert!(p.contains("fn main() -> i64 yields [IO] {\n    let total = region r"));
        assert!(p.ends_with("    total\n}\n"));
    }
}
