use vstd::prelude::*;
use crate::rng::{Rng, State, step_state, step_output};
use crate::text::{extend_lit, extend_chars, u64_decimal, i64_decimal, nat_decimal, int_decimal, str_chars, string_of, join, join_exec, dv};
use crate::types::{names_v, copy_names};
use crate::effects::str_eq;

verus! {

/// A struct a generated program declares: its name and its field names.
#[derive(Debug)]
struct StructSchema {
    name: String,
    fields: Vec<String>,
}

/// The mathematical state of a program generator: the random state, the
/// structs of the current program (name and field names), and the next
/// variable and region numbers.
pub struct GenV {
    pub rng: State,
    pub defs: Seq<(Seq<char>, Seq<Seq<char>>)>,
    pub var_id: nat,
    pub region_id: nat,
}

/// A random program generator for differential fuzzing.
pub struct ProgramGenerator {
    rng: Rng,
    struct_defs: Vec<StructSchema>,
    next_var_id: usize,
    next_region_id: usize,
}

spec fn schema_v(s: StructSchema) -> (Seq<char>, Seq<Seq<char>>) {
    (s.name@, names_v(s.fields@))
}

spec fn schemas_v(v: Seq<StructSchema>) -> Seq<(Seq<char>, Seq<Seq<char>>)> {
    v.map_values(|s: StructSchema| schema_v(s))
}

impl View for ProgramGenerator {
    type V = GenV;

    closed spec fn view(&self) -> GenV {
        GenV {
            rng: self.rng@,
            defs: schemas_v(self.struct_defs@),
            var_id: self.next_var_id as nat,
            region_id: self.next_region_id as nat,
        }
    }
}

// ---------------------------------------------------------------------------
// Draws from the random state.

/// `Rng::gen_range(min, max)`: the value and the state after.
pub open spec fn draw_range(s: State, min: int, max: int) -> (int, State) {
    if min >= max {
        (min, s)
    } else {
        (min + (step_output(s) as usize) % ((max - min + 1) as usize), step_state(s))
    }
}

/// `Rng::gen_i64(min, max)`: the value and the state after.
pub open spec fn draw_i64(s: State, min: int, max: int) -> (int, State) {
    if min >= max {
        (min, s)
    } else {
        (min + step_output(s) % ((max - min + 1) as u64), step_state(s))
    }
}

/// A coin whose low 32 output bits are compared with `threshold`.
pub open spec fn draw_bool(s: State, threshold: u32) -> (bool, State) {
    ((step_output(s) as u32) <= threshold, step_state(s))
}

/// `Rng::pick` over `n` elements: the index and the state after.
pub open spec fn draw_index(s: State, n: nat) -> (int, State) {
    if n <= 1 {
        (0, s)
    } else {
        (((step_output(s) as usize) % (n as usize)) as int, step_state(s))
    }
}

/// The threshold of `gen_bool(0.33)`.
pub const THIRD_THRESHOLD: u32 = 1417339207;

/// The threshold of `gen_bool(0.5)`.
pub const HALF_THRESHOLD: u32 = 2147483647;

// ---------------------------------------------------------------------------
// The text of a generated program.

/// `n` levels of four-space indentation.
pub open spec fn indent(n: nat) -> Seq<char>
    decreases n,
{
    if n == 0 {
        seq![]
    } else {
        indent((n - 1) as nat) + "    "@
    }
}

/// A name made of a prefix and a number.
pub open spec fn numbered(prefix: Seq<char>, n: nat) -> Seq<char> {
    prefix + nat_decimal(n)
}

/// The field names `f0` .. `f{k-1}`.
pub open spec fn field_names(k: nat) -> Seq<Seq<char>>
    decreases k,
{
    if k == 0 {
        seq![]
    } else {
        field_names((k - 1) as nat).push(numbered("f"@, (k - 1) as nat))
    }
}

/// `acc` followed by the declarations of fields `f0` .. `f{k-1}`.
pub open spec fn field_decls(acc: Seq<char>, k: nat) -> Seq<char>
    decreases k,
{
    if k == 0 {
        acc
    } else {
        field_decls(acc, (k - 1) as nat) + "    "@ + numbered("f"@, (k - 1) as nat) + ": i64,\n"@
    }
}

/// `acc` followed by `k` struct declarations, with the structs and the
/// random state after.
pub open spec fn gen_structs(acc: Seq<char>, s: State, k: nat) -> (Seq<char>, Seq<(Seq<char>, Seq<Seq<char>>)>, State)
    decreases k,
{
    if k == 0 {
        (acc, seq![], s)
    } else {
        let (t, d, s1) = gen_structs(acc, s, (k - 1) as nat);
        let (nf, s2) = draw_range(s1, 1, 4);
        let name = numbered("Schema"@, (k - 1) as nat);
        let text = field_decls(t + "struct "@ + name + " {\n"@, nf as nat) + "}\n\n"@;
        (text, d.push((name, field_names(nf as nat))), s2)
    }
}

/// The sum of the fields of `p`: `p.f0 + p.f1 + ...`.
pub open spec fn sum_expr(fields: Seq<Seq<char>>) -> Seq<char> {
    join(fields.map_values(|f: Seq<char>| "p."@ + f), " + "@)
}

/// `acc` followed by the helper functions and the head of `main`.
pub open spec fn program_head(acc: Seq<char>, first: (Seq<char>, Seq<Seq<char>>)) -> Seq<char> {
    acc + "type Percentage = u8(0..=100);\n\n"@ + "fn compute_struct_sum(p: &"@ + first.0 + ") -> i64 {\n    "@
        + sum_expr(first.1) + "\n}\n\n"@ + "fn compute_scalar(v: i64) -> i64 {\n    v * 2 + 1\n}\n\n"@
        + "fn compute_refined_edge(val: i64) -> i64 {\n"@ + "    let p: Percentage = val as Percentage;\n"@
        + "    p\n"@ + "}\n\n"@ + "fn main() -> i64 yields [IO] {\n"@
}

/// `acc` followed by the effect handler and the end of `main`.
pub open spec fn program_tail(acc: Seq<char>) -> Seq<char> {
    acc + "\n    handle {\n"@ + "        IO::print(\"completed-region-trace\");\n"@ + "    } with IO {\n"@
        + "        print(msg) => 0\n"@ + "    };\n"@ + "    total\n"@ + "}\n"@
}

/// `acc` followed by field initialisers of `fields` with values drawn from
/// `[lo, hi]`, and the state after.
pub open spec fn field_inits(acc: Seq<char>, s: State, ind: Seq<char>, fields: Seq<Seq<char>>, lo: int, hi: int) -> (Seq<char>, State)
    decreases fields.len(),
{
    if fields.len() == 0 {
        (acc, s)
    } else {
        let (t, s1) = field_inits(acc, s, ind, fields.drop_last(), lo, hi);
        let (v, s2) = draw_i64(s1, lo, hi);
        (t + ind + "    "@ + fields.last() + ": "@ + int_decimal(v) + ",\n"@, s2)
    }
}

/// `acc` followed by `k` struct allocations of a region, with the variables
/// and their structs, and the generator state after.
pub open spec fn gen_allocs(acc: Seq<char>, g: GenV, ind: Seq<char>, k: nat) -> (Seq<char>, Seq<(Seq<char>, (Seq<char>, Seq<Seq<char>>))>, GenV)
    decreases k,
{
    if k == 0 {
        (acc, seq![], g)
    } else {
        let (t, al, g1) = gen_allocs(acc, g, ind, (k - 1) as nat);
        let (idx, s1) = draw_index(g1.rng, g1.defs.len());
        let schema = g1.defs[idx];
        let var = numbered("v"@, g1.var_id);
        let t1 = t + ind + "let "@ + var + " = "@ + schema.0 + " {\n"@;
        let (t2, s2) = field_inits(t1, s1, ind, schema.1, 1, 100);
        (
            t2 + ind + "};\n"@,
            al.push((var, schema)),
            GenV { rng: s2, defs: g1.defs, var_id: g1.var_id + 1, region_id: g1.region_id },
        )
    }
}

/// The text of a nested region expression at `depth`, and the generator
/// state after.
pub open spec fn nested_region(g: GenV, depth: nat, max_depth: nat) -> (Seq<char>, GenV)
    decreases max_depth - depth,
{
    let reg = numbered("sub_r"@, g.region_id);
    let (idx, s1) = draw_index(g.rng, g.defs.len());
    let schema = g.defs[idx];
    let var = numbered("sub_v"@, g.var_id);
    let ind = indent(depth + 2);
    let t0 = "region "@ + reg + " {\n"@ + ind + "let "@ + var + " = "@ + schema.0 + " {\n"@;
    let (t1, s2) = field_inits(t0, s1, ind, schema.1, 1, 50);
    let t2 = t1 + ind + "};\n"@ + ind + "let mut local_sum = "@ + var + "."@ + schema.1[0] + ";\n"@;
    let g1 = GenV { rng: s2, defs: g.defs, var_id: g.var_id + 1, region_id: g.region_id + 1 };
    if depth < max_depth {
        let (b, s3) = draw_bool(s2, HALF_THRESHOLD);
        let g2 = GenV { rng: s3, defs: g.defs, var_id: g.var_id + 1, region_id: g.region_id + 1 };
        if b {
            let (child, g3) = nested_region(g2, depth + 1, max_depth);
            (
                t2 + ind + "local_sum = local_sum + "@ + child + ";\n"@ + ind + "local_sum\n"@ + indent(depth + 1)
                    + "}"@,
                g3,
            )
        } else {
            (
                t2 + ind + "local_sum = local_sum + compute_scalar(5);\n"@ + ind + "local_sum\n"@ + indent(
                    depth + 1,
                ) + "}"@,
                g2,
            )
        }
    } else {
        (
            t2 + ind + "local_sum = local_sum + compute_scalar(5);\n"@ + ind + "local_sum\n"@ + indent(depth + 1)
                + "}"@,
            g1,
        )
    }
}

/// The value a region tests the refinement helper with: 0 a third of the
/// time, else 100 half of the time, else a value in `[1, 99]`.
pub open spec fn draw_edge(s: State) -> (int, State) {
    let (b1, s1) = draw_bool(s, THIRD_THRESHOLD);
    if b1 {
        (0, s1)
    } else {
        let (b2, s2) = draw_bool(s1, HALF_THRESHOLD);
        if b2 {
            (100, s2)
        } else {
            draw_i64(s2, 1, 99)
        }
    }
}

/// The text of a region block of `main` at `depth`, and the generator
/// state after.
pub open spec fn region_block(g: GenV, depth: nat, max_depth: nat) -> (Seq<char>, GenV) {
    let ind = indent(depth + 1);
    let reg = numbered("r"@, g.region_id);
    let head = ind + "let total = region "@ + reg + " {\n"@;
    let inner = indent(depth + 2);
    let (na, s1) = draw_range(g.rng, 1, 3);
    let g1 = GenV { rng: s1, defs: g.defs, var_id: g.var_id, region_id: g.region_id + 1 };
    let (t1, al, g2) = gen_allocs(head, g1, inner, na as nat);
    let first = al[0];
    let acc = numbered("acc"@, g2.var_id);
    let t2 = t1 + inner + "let mut "@ + acc + " = "@ + first.0 + "."@ + first.1.1[0] + ";\n"@;
    let t3 = if first.1.0 == g.defs[0].0 {
        t2 + inner + acc + " = "@ + acc + " + compute_struct_sum(&"@ + first.0 + ");\n"@
    } else {
        t2
    };
    let g3 = GenV { rng: g2.rng, defs: g2.defs, var_id: g2.var_id + 1, region_id: g2.region_id };
    let (t4, g4) = if depth < max_depth {
        let nested = numbered("sub_res"@, g3.var_id);
        let g3b = GenV { rng: g3.rng, defs: g3.defs, var_id: g3.var_id + 1, region_id: g3.region_id };
        let (code, g5) = nested_region(g3b, depth + 1, max_depth);
        (t3 + inner + "let "@ + nested + " = "@ + code + ";\n"@ + inner + acc + " = "@ + acc + " + "@ + nested + ";\n"@, g5)
    } else {
        (t3, g3)
    };
    let (edge, s5) = draw_edge(g4.rng);
    let t5 = t4 + inner + acc + " = "@ + acc + " + compute_refined_edge("@ + int_decimal(edge) + ");\n"@ + inner
        + "IO::print(\"region-progress\");\n"@ + inner + acc + "\n"@ + ind + "};"@;
    (t5, GenV { rng: s5, defs: g4.defs, var_id: g4.var_id, region_id: g4.region_id })
}

/// A whole generated program, and the generator state after.
pub open spec fn gen_program(g: GenV) -> (Seq<char>, GenV) {
    let (n, s1) = draw_range(g.rng, 1, 3);
    let (t1, defs, s2) = gen_structs(Seq::empty(), s1, n as nat);
    let t2 = program_head(t1, defs[0]);
    let (md, s3) = draw_range(s2, 1, 4);
    let (body, g4) = region_block(GenV { rng: s3, defs, var_id: g.var_id, region_id: g.region_id }, 0, md as nat);
    (program_tail(t2 + body), g4)
}


// ---------------------------------------------------------------------------
// Generation.

/// Every struct has a field, and there is a struct.
pub open spec fn defs_ok(defs: Seq<(Seq<char>, Seq<Seq<char>>)>) -> bool {
    &&& defs.len() >= 1
    &&& forall|i: int| 0 <= i < defs.len() ==> (#[trigger] defs[i]).1.len() >= 1
}

/// Room for the variable and region numbers one program takes.
pub open spec fn ids_room(g: GenV) -> bool {
    &&& g.var_id + 16 <= usize::MAX
    &&& g.region_id + 16 <= usize::MAX
}

proof fn lemma_draw_index_bound(s: State, n: nat)
    requires
        n >= 1,
        n <= usize::MAX,
    ensures
        0 <= draw_index(s, n).0 < n,
{
}

fn indent_exec(n: usize) -> (r: Vec<char>)
    ensures
        r@ == indent(n as nat),
{
    let mut r: Vec<char> = Vec::new();
    for i in 0..n
        invariant
            r@ == indent(i as nat),
    {
        extend_lit(&mut r, "    ");
    }
    r
}

fn numbered_exec(prefix: &str, n: usize) -> (r: Vec<char>)
    ensures
        r@ == numbered(prefix@, n as nat),
{
    let mut r = str_chars(prefix);
    let d = u64_decimal(n as u64);
    extend_chars(&mut r, d.as_slice());
    r
}

fn dup_schema(s: &StructSchema) -> (r: StructSchema)
    ensures
        schema_v(r) == schema_v(*s),
{
    StructSchema { name: s.name.clone(), fields: copy_names(&s.fields) }
}

spec fn allocs_v(v: Seq<(Vec<char>, StructSchema)>) -> Seq<(Seq<char>, (Seq<char>, Seq<Seq<char>>))> {
    v.map_values(|p: (Vec<char>, StructSchema)| (p.0@, schema_v(p.1)))
}

impl ProgramGenerator {
    /// A generator drawing from `rng`, with no structs yet and numbering
    /// from 0.
    pub fn new(rng: Rng) -> (r: Self)
        ensures
            r@.rng == rng@,
            r@.defs == Seq::<(Seq<char>, Seq<Seq<char>>)>::empty(),
            r@.var_id == 0,
            r@.region_id == 0,
    {
        let r = ProgramGenerator { rng, struct_defs: Vec::new(), next_var_id: 0, next_region_id: 0 };
        assert(schemas_v(r.struct_defs@) =~= Seq::<(Seq<char>, Seq<Seq<char>>)>::empty());
        r
    }

    /// Whether the variable and region numbers leave room for one more program.
    pub fn has_id_room(&self) -> (r: bool)
        ensures
            r == ids_room(self@),
    {
        self.next_var_id <= usize::MAX - 16 && self.next_region_id <= usize::MAX - 16
    }

    /// Appends field initialisers `f: v,` with values drawn from `[lo, hi]`.
    fn field_inits(&mut self, out: &mut Vec<char>, ind: &Vec<char>, fields: &Vec<String>, lo: i64, hi: i64)
        requires
            lo <= hi,
            hi - lo < i64::MAX,
        ensures
            (final(out)@, final(self)@.rng) == field_inits(old(out)@, old(self)@.rng, ind@, names_v(fields@), lo as int, hi as int),
            final(self)@.defs == old(self)@.defs,
            final(self)@.var_id == old(self)@.var_id,
            final(self)@.region_id == old(self)@.region_id,
    {
        let ghost out0 = out@;
        let ghost s0 = self.rng@;
        let ghost fv = names_v(fields@);
        assert(fv.take(0) =~= Seq::<Seq<char>>::empty());
        for j in 0..fields.len()
            invariant
                lo <= hi,
                hi - lo < i64::MAX,
                fv == names_v(fields@),
                (out@, self.rng@) == field_inits(out0, s0, ind@, fv.take(j as int), lo as int, hi as int),
                self@.defs == old(self)@.defs,
                self@.var_id == old(self)@.var_id,
                self@.region_id == old(self)@.region_id,
        {
            assert(fv.take(j + 1).drop_last() =~= fv.take(j as int));
            assert(fv.take(j + 1).last() == fields@[j as int]@);
            let val = self.rng.gen_i64(lo, hi);
            let d = i64_decimal(val);
            extend_chars(out, ind.as_slice());
            extend_lit(out, "    ");
            extend_chars(out, str_chars(fields[j].as_str()).as_slice());
            extend_lit(out, ": ");
            extend_chars(out, d.as_slice());
            extend_lit(out, ",\n");
        }
        assert(fv.take(fields@.len() as int) =~= fv);
    }

    /// A nested region expression at `depth`, recursing while the depth
    /// allows and a coin says so.
    fn generate_nested_region(&mut self, depth: usize, max_depth: usize) -> (r: Vec<char>)
        requires
            depth <= max_depth <= 4,
            defs_ok(old(self)@.defs),
            old(self)@.var_id + (max_depth - depth) + 1 <= usize::MAX,
            old(self)@.region_id + (max_depth - depth) + 1 <= usize::MAX,
        ensures
            (r@, final(self)@) == nested_region(old(self)@, depth as nat, max_depth as nat),
            final(self)@.defs == old(self)@.defs,
            final(self)@.var_id <= old(self)@.var_id + (max_depth - depth) + 1,
            final(self)@.region_id <= old(self)@.region_id + (max_depth - depth) + 1,
            final(self)@.var_id >= old(self)@.var_id + 1,
            final(self)@.region_id >= old(self)@.region_id + 1,
        decreases max_depth - depth,
    {
        let ghost g = self@;
        let reg_name = numbered_exec("sub_r", self.next_region_id);
        self.next_region_id = self.next_region_id + 1;
        let ghost idx = draw_index(g.rng, g.defs.len()).0;
        let n_defs = self.struct_defs.len();
        proof {
            lemma_draw_index_bound(g.rng, g.defs.len());
        }
        let picked = self.rng.pick(self.struct_defs.as_slice());
        assert(*picked == self.struct_defs@[idx]);
        let schema = dup_schema(picked);
        assert(schema_v(schema) == g.defs[idx]);
        let var_name = numbered_exec("sub_v", self.next_var_id);
        self.next_var_id = self.next_var_id + 1;
        let ind = indent_exec(depth + 2);
        let mut out = str_chars("region ");
        extend_chars(&mut out, reg_name.as_slice());
        extend_lit(&mut out, " {\n");
        extend_chars(&mut out, ind.as_slice());
        extend_lit(&mut out, "let ");
        extend_chars(&mut out, var_name.as_slice());
        extend_lit(&mut out, " = ");
        extend_chars(&mut out, str_chars(schema.name.as_str()).as_slice());
        extend_lit(&mut out, " {\n");
        self.field_inits(&mut out, &ind, &schema.fields, 1, 50);
        extend_chars(&mut out, ind.as_slice());
        extend_lit(&mut out, "};\n");
        extend_chars(&mut out, ind.as_slice());
        extend_lit(&mut out, "let mut local_sum = ");
        extend_chars(&mut out, var_name.as_slice());
        extend_lit(&mut out, ".");
        extend_chars(&mut out, str_chars(schema.fields[0].as_str()).as_slice());
        extend_lit(&mut out, ";\n");
        let recurse = if depth < max_depth {
            self.rng.gen_bool_below(HALF_THRESHOLD)
        } else {
            false
        };
        if recurse {
            let child = self.generate_nested_region(depth + 1, max_depth);
            extend_chars(&mut out, ind.as_slice());
            extend_lit(&mut out, "local_sum = local_sum + ");
            extend_chars(&mut out, child.as_slice());
            extend_lit(&mut out, ";\n");
        } else {
            extend_chars(&mut out, ind.as_slice());
            extend_lit(&mut out, "local_sum = local_sum + compute_scalar(5);\n");
        }
        extend_chars(&mut out, ind.as_slice());
        extend_lit(&mut out, "local_sum\n");
        let ind1 = indent_exec(depth + 1);
        extend_chars(&mut out, ind1.as_slice());
        extend_lit(&mut out, "}");
        out
    }

    /// A region block of `main` at `current_depth`: struct allocations, a
    /// running sum, a nested region while the depth allows, and a refinement
    /// edge case.
    fn generate_region_block(&mut self, current_depth: usize, max_depth: usize) -> (r: Vec<char>)
        requires
            current_depth <= max_depth <= 4,
            defs_ok(old(self)@.defs),
            old(self)@.var_id + (max_depth - current_depth) + 5 <= usize::MAX,
            old(self)@.region_id + (max_depth - current_depth) + 1 <= usize::MAX,
        ensures
            (r@, final(self)@) == region_block(old(self)@, current_depth as nat, max_depth as nat),
            final(self)@.defs == old(self)@.defs,
            final(self)@.var_id <= old(self)@.var_id + (max_depth - current_depth) + 5,
            final(self)@.region_id <= old(self)@.region_id + (max_depth - current_depth) + 1,
            final(self)@.var_id >= old(self)@.var_id + 2,
            final(self)@.region_id >= old(self)@.region_id + 1,
    {
        let ghost g = self@;
        let ind = indent_exec(current_depth + 1);
        let reg_name = numbered_exec("r", self.next_region_id);
        self.next_region_id = self.next_region_id + 1;
        let mut code = ind.clone();
        extend_lit(&mut code, "let total = region ");
        extend_chars(&mut code, reg_name.as_slice());
        extend_lit(&mut code, " {\n");
        let inner = indent_exec(current_depth + 2);
        let num_allocs = self.rng.gen_range(1, 3);
        let ghost head = code@;
        let ghost g1 = self@;
        let mut allocated: Vec<(Vec<char>, StructSchema)> = Vec::new();
        assert(allocs_v(allocated@) =~= Seq::<(Seq<char>, (Seq<char>, Seq<Seq<char>>))>::empty());
        for k in 0..num_allocs
            invariant
                1 <= num_allocs <= 3,
                current_depth <= max_depth <= 4,
                defs_ok(g.defs),
                g1.defs == g.defs,
                g1.var_id == g.var_id,
                g.var_id + (max_depth - current_depth) + 5 <= usize::MAX,
                (code@, allocs_v(allocated@), self@) == gen_allocs(head, g1, inner@, k as nat),
                self@.var_id == g.var_id + k,
                self@.defs == g.defs,
                self@.region_id == g.region_id + 1,
                allocated@.len() == k,
                forall|i: int| 0 <= i < allocated@.len() ==> (#[trigger] allocated@[i]).1.fields@.len() >= 1,
        {
            let ghost gk = self@;
            let ghost idx = draw_index(gk.rng, gk.defs.len()).0;
            let n_defs = self.struct_defs.len();
            proof {
                lemma_draw_index_bound(gk.rng, gk.defs.len());
            }
            let picked = self.rng.pick(self.struct_defs.as_slice());
            assert(*picked == self.struct_defs@[idx]);
            let schema = dup_schema(picked);
            assert(schema_v(schema) == gk.defs[idx]);
            assert(gk.defs[idx].1.len() >= 1);
            let var_name = numbered_exec("v", self.next_var_id);
            self.next_var_id = self.next_var_id + 1;
            extend_chars(&mut code, inner.as_slice());
            extend_lit(&mut code, "let ");
            extend_chars(&mut code, var_name.as_slice());
            extend_lit(&mut code, " = ");
            extend_chars(&mut code, str_chars(schema.name.as_str()).as_slice());
            extend_lit(&mut code, " {\n");
            self.field_inits(&mut code, &inner, &schema.fields, 1, 100);
            extend_chars(&mut code, inner.as_slice());
            extend_lit(&mut code, "};\n");
            let ghost old_allocs = allocs_v(allocated@);
            allocated.push((var_name, schema));
            assert(allocs_v(allocated@) =~= old_allocs.push((var_name@, schema_v(schema))));
        }
        let ghost al = allocs_v(allocated@);
        assert(al[0] == (allocated@[0].0@, schema_v(allocated@[0].1)));
        let acc_var = numbered_exec("acc", self.next_var_id);
        self.next_var_id = self.next_var_id + 1;
        let first_var = &allocated[0].0;
        let first_schema = &allocated[0].1;
        extend_chars(&mut code, inner.as_slice());
        extend_lit(&mut code, "let mut ");
        extend_chars(&mut code, acc_var.as_slice());
        extend_lit(&mut code, " = ");
        extend_chars(&mut code, first_var.as_slice());
        extend_lit(&mut code, ".");
        extend_chars(&mut code, str_chars(first_schema.fields[0].as_str()).as_slice());
        extend_lit(&mut code, ";\n");
        if str_eq(first_schema.name.as_str(), self.struct_defs[0].name.as_str()) {
            extend_chars(&mut code, inner.as_slice());
            extend_chars(&mut code, acc_var.as_slice());
            extend_lit(&mut code, " = ");
            extend_chars(&mut code, acc_var.as_slice());
            extend_lit(&mut code, " + compute_struct_sum(&");
            extend_chars(&mut code, first_var.as_slice());
            extend_lit(&mut code, ");\n");
        }
        if current_depth < max_depth {
            let nested_var = numbered_exec("sub_res", self.next_var_id);
            self.next_var_id = self.next_var_id + 1;
            let nested_code = self.generate_nested_region(current_depth + 1, max_depth);
            extend_chars(&mut code, inner.as_slice());
            extend_lit(&mut code, "let ");
            extend_chars(&mut code, nested_var.as_slice());
            extend_lit(&mut code, " = ");
            extend_chars(&mut code, nested_code.as_slice());
            extend_lit(&mut code, ";\n");
            extend_chars(&mut code, inner.as_slice());
            extend_chars(&mut code, acc_var.as_slice());
            extend_lit(&mut code, " = ");
            extend_chars(&mut code, acc_var.as_slice());
            extend_lit(&mut code, " + ");
            extend_chars(&mut code, nested_var.as_slice());
            extend_lit(&mut code, ";\n");
        }
        let edge_val: i64 = if self.rng.gen_bool_below(THIRD_THRESHOLD) {
            0
        } else if self.rng.gen_bool_below(HALF_THRESHOLD) {
            100
        } else {
            self.rng.gen_i64(1, 99)
        };
        let edge = i64_decimal(edge_val);
        extend_chars(&mut code, inner.as_slice());
        extend_chars(&mut code, acc_var.as_slice());
        extend_lit(&mut code, " = ");
        extend_chars(&mut code, acc_var.as_slice());
        extend_lit(&mut code, " + compute_refined_edge(");
        extend_chars(&mut code, edge.as_slice());
        extend_lit(&mut code, ");\n");
        extend_chars(&mut code, inner.as_slice());
        extend_lit(&mut code, "IO::print(\"region-progress\");\n");
        extend_chars(&mut code, inner.as_slice());
        extend_chars(&mut code, acc_var.as_slice());
        extend_lit(&mut code, "\n");
        extend_chars(&mut code, ind.as_slice());
        extend_lit(&mut code, "};");
        code
    }


    /// A random, well-typed program: one to three structs, helper
    /// functions, and a `main` of nested regions that handles its effects.
    pub fn generate_valid_program(&mut self) -> (r: String)
        requires
            ids_room(old(self)@),
        ensures
            (r@, final(self)@) == gen_program(old(self)@),
            final(self)@.var_id >= old(self)@.var_id + 2,
            final(self)@.region_id >= old(self)@.region_id + 1,
    {
        let ghost g = self@;
        let mut out: Vec<char> = Vec::new();
        let num_structs = self.rng.gen_range(1, 3);
        let ghost s1 = self.rng@;
        self.struct_defs = Vec::new();
        assert(schemas_v(self.struct_defs@) =~= Seq::<(Seq<char>, Seq<Seq<char>>)>::empty());
        for s_idx in 0..num_structs
            invariant
                1 <= num_structs <= 3,
                (out@, schemas_v(self.struct_defs@), self.rng@) == gen_structs(Seq::empty(), s1, s_idx as nat),
                self.struct_defs@.len() == s_idx,
                forall|i: int| 0 <= i < self.struct_defs@.len() ==> (#[trigger] self.struct_defs@[i]).fields@.len() >= 1,
                self.next_var_id == g.var_id,
                self.next_region_id == g.region_id,
        {
            let s_name = numbered_exec("Schema", s_idx);
            let num_fields = self.rng.gen_range(1, 4);
            let mut fields: Vec<String> = Vec::new();
            extend_lit(&mut out, "struct ");
            extend_chars(&mut out, s_name.as_slice());
            extend_lit(&mut out, " {\n");
            let ghost base = out@;
            assert(names_v(fields@) =~= field_names(0));
            for f_idx in 0..num_fields
                invariant
                    out@ == field_decls(base, f_idx as nat),
                    names_v(fields@) == field_names(f_idx as nat),
                    fields@.len() == f_idx,
            {
                let f_name = numbered_exec("f", f_idx);
                extend_lit(&mut out, "    ");
                extend_chars(&mut out, f_name.as_slice());
                extend_lit(&mut out, ": i64,\n");
                let ghost before = names_v(fields@);
                fields.push(string_of(f_name.as_slice()));
                assert(names_v(fields@) =~= before.push(f_name@));
            }
            extend_lit(&mut out, "}\n\n");
            let ghost before_defs = schemas_v(self.struct_defs@);
            let schema = StructSchema { name: string_of(s_name.as_slice()), fields: fields };
            self.struct_defs.push(schema);
            assert(schemas_v(self.struct_defs@) =~= before_defs.push(schema_v(schema)));
        }
        let ghost defs = schemas_v(self.struct_defs@);
        assert(defs_ok(defs)) by {
            assert forall|i: int| 0 <= i < defs.len() implies (#[trigger] defs[i]).1.len() >= 1 by {
                assert(defs[i] == schema_v(self.struct_defs@[i]));
            }
        }
        extend_lit(&mut out, "type Percentage = u8(0..=100);\n\n");
        let s_ref = &self.struct_defs[0];
        assert(defs[0] == schema_v(*s_ref));
        extend_lit(&mut out, "fn compute_struct_sum(p: &");
        extend_chars(&mut out, str_chars(s_ref.name.as_str()).as_slice());
        extend_lit(&mut out, ") -> i64 {\n    ");
        let mut parts: Vec<Vec<char>> = Vec::new();
        let ghost fv = names_v(s_ref.fields@);
        for i in 0..s_ref.fields.len()
            invariant
                fv == names_v(s_ref.fields@),
                dv(parts@) == fv.take(i as int).map_values(|f: Seq<char>| "p."@ + f),
        {
            let mut part = str_chars("p.");
            extend_chars(&mut part, str_chars(s_ref.fields[i].as_str()).as_slice());
            let ghost before = dv(parts@);
            parts.push(part);
            assert(dv(parts@) =~= before.push(part@));
            assert(fv.take(i + 1).map_values(|f: Seq<char>| "p."@ + f) =~= fv.take(i as int).map_values(|f: Seq<char>| "p."@ + f).push("p."@ + fv[i as int]));
        }
        assert(fv.take(s_ref.fields@.len() as int) =~= fv);
        let sum = join_exec(parts.as_slice(), str_chars(" + ").as_slice());
        extend_chars(&mut out, sum.as_slice());
        extend_lit(&mut out, "\n}\n\n");
        extend_lit(&mut out, "fn compute_scalar(v: i64) -> i64 {\n    v * 2 + 1\n}\n\n");
        extend_lit(&mut out, "fn compute_refined_edge(val: i64) -> i64 {\n");
        extend_lit(&mut out, "    let p: Percentage = val as Percentage;\n");
        extend_lit(&mut out, "    p\n");
        extend_lit(&mut out, "}\n\n");
        extend_lit(&mut out, "fn main() -> i64 yields [IO] {\n");
        let max_depth = self.rng.gen_range(1, 4);
        let body = self.generate_region_block(0, max_depth);
        extend_chars(&mut out, body.as_slice());
        extend_lit(&mut out, "\n    handle {\n");
        extend_lit(&mut out, "        IO::print(\"completed-region-trace\");\n");
        extend_lit(&mut out, "    } with IO {\n");
        extend_lit(&mut out, "        print(msg) => 0\n");
        extend_lit(&mut out, "    };\n");
        extend_lit(&mut out, "    total\n");
        extend_lit(&mut out, "}\n");
        string_of(out.as_slice())
    }

}

} // verus!
