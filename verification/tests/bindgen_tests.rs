use tungsten_core::bindgen::{bindings_input_ok, generate_bindings, map_c_type, strip_comments};

#[test]
fn test_bindgen_simple_header() {
    let header = r#"
        #define BUFFER_SIZE 4096
        #define GREETING "Hello World"

        struct Point {
            int x;
            int y;
        };

        int puts(const char *s);
        size_t strlen(const char *str);
        void *malloc(size_t size);
        void free(void *ptr);
        int add(int a, int b);
        "#;

    let tg = generate_bindings(header).unwrap();
    assert!(tg.contains("// const BUFFER_SIZE: i64 = 4096;"));
    assert!(tg.contains("// const GREETING: String = \"Hello World\";"));
    assert!(tg.contains("#[repr(C)]"));
    assert!(tg.contains("struct Point {"));
    assert!(tg.contains("    x: i32,"));
    assert!(tg.contains("    y: i32,"));
    assert!(tg.contains("extern \"C\" {"));
    assert!(tg.contains("fn puts(s: *const u8) -> i32;"));
    assert!(tg.contains("fn strlen(str: *const u8) -> usize;"));
    assert!(tg.contains("fn malloc(size: usize) -> *mut u8;"));
    assert!(tg.contains("fn free(ptr: *mut u8);"));
    assert!(tg.contains("fn add(a: i32, b: i32) -> i32;"));
}

#[test]
fn test_sqlite_bindgen_generation() {
    let header = r#"
    #define SQLITE_OK 0
    #define SQLITE_ROW 100
    #define SQLITE_DONE 101

    int sqlite3_open(const char *filename, void **ppDb);
    int sqlite3_close(void *db);
    int sqlite3_prepare_v2(void *db, const char *zSql, int nByte, void **ppStmt, const char **pzTail);
    int sqlite3_step(void *pStmt);
    const unsigned char *sqlite3_column_text(void *pStmt, int iCol);
    int sqlite3_column_bytes(void *pStmt, int iCol);
    int sqlite3_finalize(void *pStmt);
    const char *sqlite3_errmsg(void *db);
    "#;

    let tg = generate_bindings(header).expect("Bindgen must succeed for SQLite header subset");
    assert!(tg.contains("sqlite3_open"));
    assert!(tg.contains("sqlite3_close"));
    assert!(tg.contains("sqlite3_prepare_v2"));
    assert!(tg.contains("sqlite3_step"));
    assert!(tg.contains("sqlite3_column_text"));
    assert!(tg.contains("sqlite3_finalize"));
    assert!(tg.contains("sqlite3_errmsg"));
    assert!(tg.contains("extern \"C\""));
}

#[test]
fn bindgen_exact_output_for_small_header() {
    let header = "#define N 3\nstruct P { int a; char *b; };\nvoid f(int, double x, ...);\n";
    let tg = generate_bindings(header).unwrap();
    let expected = "// ==========================================================\n\
// Generated by forge bindgen — Tungsten C-ABI Stable Bridge\n\
// ==========================================================\n\n\
// Constants (from C #define)\n\
// const N: i64 = 3;\n\n\
// C-Compatible Struct Layouts\n\
#[repr(C)]\n\
struct P {\n    a: i32,\n    b: *mut u8,\n}\n\n\
// Foreign Function Interface Declarations\n\
extern \"C\" {\n    fn f(arg0: i32, x: double);\n}\n";
    assert_eq!(tg, expected);
}

#[test]
fn bindgen_typedef_struct_and_forward_declaration() {
    let header = "struct Fwd;\ntypedef struct { unsigned int n; } Counter;\n";
    let tg = generate_bindings(header).unwrap();
    assert!(tg.contains("struct Counter {\n    n: u32,\n}"));
    assert!(!tg.contains("struct Fwd {"));
}

#[test]
fn bindgen_rejects_panicking_inputs() {
    assert!(!bindings_input_ok("abc"));
    assert!(!bindings_input_ok("struct S { int a; }"));
    assert!(bindings_input_ok(""));
    assert!(bindings_input_ok("struct S { int a; };"));
}

#[test]
fn bindgen_defines_that_are_not_constants_are_dropped() {
    let tg = generate_bindings("#define FLAG\n#define EXPR (1 + 2)\n#define BIG 99999999999999999999\n").unwrap();
    assert!(!tg.contains("// Constants"));
}

#[test]
fn strip_comments_removes_both_styles() {
    assert_eq!(strip_comments("a/* x */b// y\nc"), "ab\nc");
    assert_eq!(strip_comments("/* open"), "");
}

#[test]
fn map_c_type_cases() {
    assert_eq!(map_c_type("const char *"), "*const u8");
    assert_eq!(map_c_type("void *"), "*mut u8");
    assert_eq!(map_c_type("int **"), "*mut i32");
    assert_eq!(map_c_type("unsigned long"), "usize");
    assert_eq!(map_c_type("struct Point"), "Point");
    assert_eq!(map_c_type("void"), "()");
    assert_eq!(map_c_type(""), "u8");
}

#[test]
fn declaration_after_defines_is_bound() {
    let tg = generate_bindings("#define N 1\nint f(int a);\n").unwrap();
    assert!(tg.contains("fn f(a: i32) -> i32;"));
    assert!(tg.contains("// const N: i64 = 1;"));
}
