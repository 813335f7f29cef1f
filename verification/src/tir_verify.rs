use vstd::prelude::*;
use crate::tir::{BlockId, HandlerArm, Terminator, TirBlock, TirFunction, TirModule};
use crate::text::{extend_chars, extend_lit, nat_decimal, str_chars, string_of, u64_decimal};

verus! {

broadcast use vstd::string::group_string_axioms;

/// A structural error found in a TIR function.
#[derive(Debug)]
pub struct TirVerifyError {
    pub message: String,
    pub function_name: String,
    pub block_id: Option<BlockId>,
}

pub type ErrV = (Seq<char>, Seq<char>, Option<BlockId>);

impl View for TirVerifyError {
    type V = ErrV;

    open spec fn view(&self) -> ErrV {
        (self.message@, self.function_name@, self.block_id)
    }
}

pub open spec fn errs_view(v: Seq<TirVerifyError>) -> Seq<ErrV> {
    v.map_values(|e: TirVerifyError| e@)
}

/// How a block label is written in messages.
pub open spec fn block_text(b: BlockId) -> Seq<char> {
    "bb"@ + nat_decimal(b.0 as nat)
}

/// Whether some block of the function has the label.
pub open spec fn has_block(blocks: Seq<TirBlock>, id: BlockId) -> bool {
    exists|i: int| 0 <= i < blocks.len() && blocks[i].id == id
}

pub open spec fn missing(blocks: Seq<TirBlock>, id: BlockId, msg: Seq<char>, fname: Seq<char>, at: BlockId) -> Seq<ErrV> {
    if has_block(blocks, id) {
        seq![]
    } else {
        seq![(msg, fname, Some(at))]
    }
}

pub open spec fn handler_errors(blocks: Seq<TirBlock>, hs: Seq<HandlerArm>, fname: Seq<char>, at: BlockId) -> Seq<ErrV>
    decreases hs.len(),
{
    if hs.len() == 0 {
        seq![]
    } else {
        let h = hs.last();
        handler_errors(blocks, hs.drop_last(), fname, at) + missing(
            blocks,
            h.handler_entry,
            "Handler entry "@ + block_text(h.handler_entry) + " for "@ + h.effect@ + "::"@ + h.op@
                + " does not exist"@,
            fname,
            at,
        )
    }
}

/// The errors of one block: a missing terminator, or terminator targets that are not blocks
/// of the function.
pub open spec fn block_errors(blocks: Seq<TirBlock>, b: TirBlock, fname: Seq<char>) -> Seq<ErrV> {
    match b.terminator {
        None => seq![("Block "@ + block_text(b.id) + " is missing a terminator"@, fname, Some(b.id))],
        Some(t) => match t {
            Terminator::Branch(target) => missing(
                blocks,
                target,
                "Branch target "@ + block_text(target) + " does not exist"@,
                fname,
                b.id,
            ),
            Terminator::BranchCond { then_block, else_block, .. } => missing(
                blocks,
                then_block,
                "BranchCond then target "@ + block_text(then_block) + " does not exist"@,
                fname,
                b.id,
            ) + missing(
                blocks,
                else_block,
                "BranchCond else target "@ + block_text(else_block) + " does not exist"@,
                fname,
                b.id,
            ),
            Terminator::HandleEffect { body_entry, handlers, exit_block } => missing(
                blocks,
                body_entry,
                "HandleEffect body entry "@ + block_text(body_entry) + " does not exist"@,
                fname,
                b.id,
            ) + missing(
                blocks,
                exit_block,
                "HandleEffect exit block "@ + block_text(exit_block) + " does not exist"@,
                fname,
                b.id,
            ) + handler_errors(blocks, handlers@, fname, b.id),
            Terminator::Resume { continuation_block, .. } => missing(
                blocks,
                continuation_block,
                "Resume target "@ + block_text(continuation_block) + " does not exist"@,
                fname,
                b.id,
            ),
            Terminator::Return(_) => seq![],
            Terminator::Unreachable => seq![],
        },
    }
}

pub open spec fn blocks_errors(blocks: Seq<TirBlock>, bs: Seq<TirBlock>, fname: Seq<char>) -> Seq<ErrV>
    decreases bs.len(),
{
    if bs.len() == 0 {
        seq![]
    } else {
        blocks_errors(blocks, bs.drop_last(), fname) + block_errors(blocks, bs.last(), fname)
    }
}

/// All structural errors of a function, in the order they are found: the entry block first,
/// then each block in order.
pub open spec fn function_errors(f: TirFunction) -> Seq<ErrV> {
    missing(
        f.blocks@,
        f.entry_block,
        "Entry block "@ + block_text(f.entry_block) + " does not exist in function"@,
        f.name@,
        f.entry_block,
    ) + blocks_errors(f.blocks@, f.blocks@, f.name@)
}

pub open spec fn module_errors(fs: Seq<TirFunction>) -> Seq<ErrV>
    decreases fs.len(),
{
    if fs.len() == 0 {
        seq![]
    } else {
        module_errors(fs.drop_last()) + function_errors(fs.last())
    }
}

/// The result a list of errors makes: `Ok` when there is none.
pub open spec fn outcome(r: Result<(), Vec<TirVerifyError>>, errs: Seq<ErrV>) -> bool {
    if errs.len() == 0 {
        r is Ok
    } else {
        r matches Err(es) && errs_view(es@) == errs
    }
}

fn has_block_exec(blocks: &Vec<TirBlock>, id: BlockId) -> (r: bool)
    ensures
        r == has_block(blocks@, id),
{
    let mut k: usize = 0;
    while k < blocks.len()
        invariant
            k <= blocks@.len(),
            forall|m: int| 0 <= m < k ==> blocks@[m].id != id,
        decreases blocks@.len() - k,
    {
        if blocks[k].id == id {
            return true;
        }
        k = k + 1;
    }
    false
}

fn block_text_exec(out: &mut Vec<char>, b: BlockId)
    ensures
        final(out)@ == old(out)@ + block_text(b),
{
    extend_lit(out, "bb");
    extend_chars(out, u64_decimal(b.0 as u64).as_slice());
    assert(final(out)@ =~= old(out)@ + block_text(b));
}

fn push_missing(
    errors: &mut Vec<TirVerifyError>,
    blocks: &Vec<TirBlock>,
    id: BlockId,
    pre: &str,
    post: &str,
    fname: &String,
    at: BlockId,
)
    ensures
        errs_view(final(errors)@) == errs_view(old(errors)@) + missing(
            blocks@,
            id,
            pre@ + block_text(id) + post@,
            fname@,
            at,
        ),
{
    if !has_block_exec(blocks, id) {
        let mut msg: Vec<char> = Vec::new();
        extend_lit(&mut msg, pre);
        block_text_exec(&mut msg, id);
        extend_lit(&mut msg, post);
        let ghost before = errors@;
        errors.push(TirVerifyError { message: string_of(msg.as_slice()), function_name: fname.clone(), block_id: Some(at) });
        assert(errs_view(errors@) =~= errs_view(before) + seq![(pre@ + block_text(id) + post@, fname@, Some(at))]);
    } else {
        assert(errs_view(errors@) =~= errs_view(old(errors)@) + Seq::<ErrV>::empty());
    }
}

fn push_block_errors(errors: &mut Vec<TirVerifyError>, blocks: &Vec<TirBlock>, b: &TirBlock, fname: &String)
    ensures
        errs_view(final(errors)@) == errs_view(old(errors)@) + block_errors(blocks@, *b, fname@),
{
    let ghost start = errs_view(errors@);
    match &b.terminator {
        None => {
            let mut msg: Vec<char> = Vec::new();
            extend_lit(&mut msg, "Block ");
            block_text_exec(&mut msg, b.id);
            extend_lit(&mut msg, " is missing a terminator");
            errors.push(TirVerifyError { message: string_of(msg.as_slice()), function_name: fname.clone(), block_id: Some(b.id) });
            assert(errs_view(errors@) =~= start + block_errors(blocks@, *b, fname@));
        },
        Some(Terminator::Branch(target)) => {
            push_missing(errors, blocks, *target, "Branch target ", " does not exist", fname, b.id);
        },
        Some(Terminator::BranchCond { then_block, else_block, .. }) => {
            push_missing(errors, blocks, *then_block, "BranchCond then target ", " does not exist", fname, b.id);
            push_missing(errors, blocks, *else_block, "BranchCond else target ", " does not exist", fname, b.id);
            assert(errs_view(errors@) =~= start + block_errors(blocks@, *b, fname@));
        },
        Some(Terminator::HandleEffect { body_entry, handlers, exit_block }) => {
            push_missing(errors, blocks, *body_entry, "HandleEffect body entry ", " does not exist", fname, b.id);
            push_missing(errors, blocks, *exit_block, "HandleEffect exit block ", " does not exist", fname, b.id);
            let ghost mid = errs_view(errors@);
            let mut k: usize = 0;
            while k < handlers.len()
                invariant
                    k <= handlers@.len(),
                    errs_view(errors@) == mid + handler_errors(blocks@, handlers@.subrange(0, k as int), fname@, b.id),
                decreases handlers@.len() - k,
            {
                let h = &handlers[k];
                let ghost before = errs_view(errors@);
                if !has_block_exec(blocks, h.handler_entry) {
                    let mut msg: Vec<char> = Vec::new();
                    extend_lit(&mut msg, "Handler entry ");
                    block_text_exec(&mut msg, h.handler_entry);
                    extend_lit(&mut msg, " for ");
                    extend_chars(&mut msg, str_chars(h.effect.as_str()).as_slice());
                    extend_lit(&mut msg, "::");
                    extend_chars(&mut msg, str_chars(h.op.as_str()).as_slice());
                    extend_lit(&mut msg, " does not exist");
                    errors.push(TirVerifyError { message: string_of(msg.as_slice()), function_name: fname.clone(), block_id: Some(b.id) });
                    assert(errs_view(errors@) =~= before + seq![(msg@, fname@, Some(b.id))]);
                } else {
                    assert(errs_view(errors@) =~= before + Seq::<ErrV>::empty());
                }
                assert(handlers@.subrange(0, k + 1).drop_last() =~= handlers@.subrange(0, k as int));
                k = k + 1;
            }
            assert(handlers@.subrange(0, handlers@.len() as int) =~= handlers@);
            assert(errs_view(errors@) =~= start + block_errors(blocks@, *b, fname@));
        },
        Some(Terminator::Resume { continuation_block, .. }) => {
            push_missing(errors, blocks, *continuation_block, "Resume target ", " does not exist", fname, b.id);
        },
        Some(Terminator::Return(_)) => {
            assert(errs_view(errors@) =~= start + block_errors(blocks@, *b, fname@));
        },
        Some(Terminator::Unreachable) => {
            assert(errs_view(errors@) =~= start + block_errors(blocks@, *b, fname@));
        },
    }
}

fn collect_function_errors(errors: &mut Vec<TirVerifyError>, func: &TirFunction)
    ensures
        errs_view(final(errors)@) == errs_view(old(errors)@) + function_errors(*func),
{
    let ghost start = errs_view(errors@);
    push_missing(errors, &func.blocks, func.entry_block, "Entry block ", " does not exist in function", &func.name, func.entry_block);
    let ghost mid = errs_view(errors@);
    let mut k: usize = 0;
    while k < func.blocks.len()
        invariant
            k <= func.blocks@.len(),
            errs_view(errors@) == mid + blocks_errors(func.blocks@, func.blocks@.subrange(0, k as int), func.name@),
        decreases func.blocks@.len() - k,
    {
        push_block_errors(errors, &func.blocks, &func.blocks[k], &func.name);
        assert(func.blocks@.subrange(0, k + 1).drop_last() =~= func.blocks@.subrange(0, k as int));
        proof {
            let s = func.blocks@.subrange(0, k + 1);
            assert(s.last() == func.blocks@[k as int]);
        }
        assert(errs_view(errors@) =~= mid + blocks_errors(func.blocks@, func.blocks@.subrange(0, k + 1), func.name@));
        k = k + 1;
    }
    assert(func.blocks@.subrange(0, func.blocks@.len() as int) =~= func.blocks@);
    assert(errs_view(errors@) =~= start + function_errors(*func));
}

/// Checks that the entry block exists, that every block has a terminator, and that every
/// branch, handler and resume target is a block of the function.
pub fn verify_function(func: &TirFunction) -> (r: Result<(), Vec<TirVerifyError>>)
    ensures
        outcome(r, function_errors(*func)),
{
    let mut errors: Vec<TirVerifyError> = Vec::new();
    collect_function_errors(&mut errors, func);
    assert(errs_view(errors@) =~= function_errors(*func));
    if errors.len() == 0 {
        Ok(())
    } else {
        Err(errors)
    }
}

/// Checks every function of the module; the errors of all functions, in order.
pub fn verify_module(module: &TirModule) -> (r: Result<(), Vec<TirVerifyError>>)
    ensures
        outcome(r, module_errors(module.functions@)),
{
    let mut errors: Vec<TirVerifyError> = Vec::new();
    let mut k: usize = 0;
    while k < module.functions.len()
        invariant
            k <= module.functions@.len(),
            errs_view(errors@) == module_errors(module.functions@.subrange(0, k as int)),
        decreases module.functions@.len() - k,
    {
        collect_function_errors(&mut errors, &module.functions[k]);
        assert(module.functions@.subrange(0, k + 1).drop_last() =~= module.functions@.subrange(0, k as int));
        k = k + 1;
    }
    assert(module.functions@.subrange(0, module.functions@.len() as int) =~= module.functions@);
    if errors.len() == 0 {
        Ok(())
    } else {
        Err(errors)
    }
}

impl TirVerifyError {
    /// The text the error displays as.
    pub open spec fn display_spec(&self) -> Seq<char> {
        match self.block_id {
            Some(b) => "[TIR Error in fn '"@ + self.function_name@ + "' at "@ + block_text(b) + "]: "@ + self.message@,
            None => "[TIR Error in fn '"@ + self.function_name@ + "']: "@ + self.message@,
        }
    }

    /// `[TIR Error in fn 'NAME' at BLOCK]: MESSAGE`, or without ` at BLOCK` when no block is named.
    pub fn to_display_string(&self) -> (r: String)
        ensures
            r@ == self.display_spec(),
    {
        let mut out: Vec<char> = Vec::new();
        extend_lit(&mut out, "[TIR Error in fn '");
        extend_chars(&mut out, str_chars(self.function_name.as_str()).as_slice());
        match self.block_id {
            Some(b) => {
                extend_lit(&mut out, "' at ");
                block_text_exec(&mut out, b);
                extend_lit(&mut out, "]: ");
            },
            None => {
                extend_lit(&mut out, "']: ");
            },
        }
        extend_chars(&mut out, str_chars(self.message.as_str()).as_slice());
        string_of(out.as_slice())
    }
}

/// A function whose entry exists and whose every block ends in `return` has no errors.
pub proof fn law_returning_blocks_verify(f: TirFunction)
    requires
        has_block(f.blocks@, f.entry_block),
        forall|i: int| 0 <= i < f.blocks@.len() ==> (#[trigger] f.blocks@[i]).terminator matches Some(Terminator::Return(_)),
    ensures
        function_errors(f).len() == 0,
{
    lemma_no_block_errors(f.blocks@, f.blocks@, f.name@);
}

proof fn lemma_no_block_errors(blocks: Seq<TirBlock>, bs: Seq<TirBlock>, fname: Seq<char>)
    requires
        forall|i: int| 0 <= i < bs.len() ==> (#[trigger] bs[i]).terminator matches Some(Terminator::Return(_)),
    ensures
        blocks_errors(blocks, bs, fname).len() == 0,
    decreases bs.len(),
{
    if bs.len() > 0 {
        assert(bs.last() == bs[bs.len() - 1]);
        lemma_no_block_errors(blocks, bs.drop_last(), fname);
    }
}

} // verus!

verus! {

/// Whether every target a terminator names is a block of the function.
pub open spec fn targets_exist(blocks: Seq<TirBlock>, t: Terminator) -> bool {
    match t {
        Terminator::Branch(target) => has_block(blocks, target),
        Terminator::BranchCond { then_block, else_block, .. } => has_block(blocks, then_block) && has_block(
            blocks,
            else_block,
        ),
        Terminator::HandleEffect { body_entry, handlers, exit_block } => has_block(blocks, body_entry)
            && has_block(blocks, exit_block) && forall|j: int|
            0 <= j < handlers@.len() ==> has_block(blocks, (#[trigger] handlers@[j]).handler_entry),
        Terminator::Resume { continuation_block, .. } => has_block(blocks, continuation_block),
        Terminator::Return(_) => true,
        Terminator::Unreachable => true,
    }
}

/// Whether a function is well formed: its entry block exists, and every block
/// has a terminator whose targets all exist.
pub open spec fn well_formed_function(f: TirFunction) -> bool {
    &&& has_block(f.blocks@, f.entry_block)
    &&& forall|i: int|
        0 <= i < f.blocks@.len() ==> (#[trigger] f.blocks@[i]).terminator is Some && targets_exist(
            f.blocks@,
            f.blocks@[i].terminator->Some_0,
        )
}

proof fn lemma_handler_errors(blocks: Seq<TirBlock>, hs: Seq<HandlerArm>, fname: Seq<char>, at: BlockId)
    ensures
        (handler_errors(blocks, hs, fname, at).len() == 0) <==> (forall|j: int|
            0 <= j < hs.len() ==> has_block(blocks, (#[trigger] hs[j]).handler_entry)),
        forall|k: int| 0 <= k < handler_errors(blocks, hs, fname, at).len()
            ==> (#[trigger] handler_errors(blocks, hs, fname, at)[k]).1 == fname,
    decreases hs.len(),
{
    if hs.len() > 0 {
        let init = hs.drop_last();
        lemma_handler_errors(blocks, init, fname, at);
        let h = hs.last();
        if forall|j: int| 0 <= j < hs.len() ==> has_block(blocks, (#[trigger] hs[j]).handler_entry) {
            assert forall|j: int| 0 <= j < init.len() implies has_block(blocks, (#[trigger] init[j]).handler_entry) by {
                assert(init[j] == hs[j]);
            }
            assert(hs[hs.len() - 1] == h);
        }
        if handler_errors(blocks, hs, fname, at).len() == 0 {
            assert forall|j: int| 0 <= j < hs.len() implies has_block(blocks, (#[trigger] hs[j]).handler_entry) by {
                if j < hs.len() - 1 {
                    assert(init[j] == hs[j]);
                }
            }
        }
        let e = handler_errors(blocks, hs, fname, at);
        let a = handler_errors(blocks, init, fname, at);
        assert forall|k: int| 0 <= k < e.len() implies (#[trigger] e[k]).1 == fname by {
            if k < a.len() {
                assert(e[k] == a[k]);
            }
        }
    }
}

proof fn lemma_block_errors(blocks: Seq<TirBlock>, b: TirBlock, fname: Seq<char>)
    ensures
        (block_errors(blocks, b, fname).len() == 0) <==> (b.terminator is Some && targets_exist(
            blocks,
            b.terminator->Some_0,
        )),
        forall|k: int| 0 <= k < block_errors(blocks, b, fname).len()
            ==> (#[trigger] block_errors(blocks, b, fname)[k]).1 == fname,
{
    match b.terminator {
        Some(Terminator::HandleEffect { body_entry, handlers, exit_block }) => {
            lemma_handler_errors(blocks, handlers@, fname, b.id);
            let e = block_errors(blocks, b, fname);
            let m1 = missing(blocks, body_entry, "HandleEffect body entry "@ + block_text(body_entry) + " does not exist"@, fname, b.id);
            let m2 = missing(blocks, exit_block, "HandleEffect exit block "@ + block_text(exit_block) + " does not exist"@, fname, b.id);
            let hh = handler_errors(blocks, handlers@, fname, b.id);
            assert(e == m1 + m2 + hh);
            assert forall|k: int| 0 <= k < e.len() implies (#[trigger] e[k]).1 == fname by {
                if k < m1.len() {
                } else if k < m1.len() + m2.len() {
                } else {
                    assert(e[k] == hh[k - m1.len() - m2.len()]);
                }
            }
        },
        _ => {},
    }
}

proof fn lemma_blocks_errors(blocks: Seq<TirBlock>, bs: Seq<TirBlock>, fname: Seq<char>)
    ensures
        (blocks_errors(blocks, bs, fname).len() == 0) <==> (forall|i: int|
            0 <= i < bs.len() ==> (#[trigger] bs[i]).terminator is Some && targets_exist(
                blocks,
                bs[i].terminator->Some_0,
            )),
        forall|k: int| 0 <= k < blocks_errors(blocks, bs, fname).len()
            ==> (#[trigger] blocks_errors(blocks, bs, fname)[k]).1 == fname,
    decreases bs.len(),
{
    if bs.len() > 0 {
        let init = bs.drop_last();
        let b = bs.last();
        lemma_blocks_errors(blocks, init, fname);
        lemma_block_errors(blocks, b, fname);
        assert(bs[bs.len() - 1] == b);
        if forall|i: int| 0 <= i < bs.len() ==> (#[trigger] bs[i]).terminator is Some && targets_exist(blocks, bs[i].terminator->Some_0) {
            assert forall|i: int| 0 <= i < init.len() implies (#[trigger] init[i]).terminator is Some && targets_exist(blocks, init[i].terminator->Some_0) by {
                assert(init[i] == bs[i]);
            }
        }
        if blocks_errors(blocks, bs, fname).len() == 0 {
            assert forall|i: int| 0 <= i < bs.len() implies (#[trigger] bs[i]).terminator is Some && targets_exist(blocks, bs[i].terminator->Some_0) by {
                if i < bs.len() - 1 {
                    assert(init[i] == bs[i]);
                }
            }
        }
        let e = blocks_errors(blocks, bs, fname);
        let a = blocks_errors(blocks, init, fname);
        let c = block_errors(blocks, b, fname);
        assert(e == a + c);
        assert forall|k: int| 0 <= k < e.len() implies (#[trigger] e[k]).1 == fname by {
            if k < a.len() {
                assert(e[k] == a[k]);
            } else {
                assert(e[k] == c[k - a.len()]);
            }
        }
    }
}

/// `verify_function` succeeds exactly on well-formed functions, and every
/// error it reports names the function.
pub proof fn law_verify_function_iff_well_formed(f: TirFunction)
    ensures
        (function_errors(f).len() == 0) <==> well_formed_function(f),
        forall|k: int| 0 <= k < function_errors(f).len() ==> (#[trigger] function_errors(f)[k]).1 == f.name@,
{
    lemma_blocks_errors(f.blocks@, f.blocks@, f.name@);
    let m = missing(
        f.blocks@,
        f.entry_block,
        "Entry block "@ + block_text(f.entry_block) + " does not exist in function"@,
        f.name@,
        f.entry_block,
    );
    let b = blocks_errors(f.blocks@, f.blocks@, f.name@);
    let e = function_errors(f);
    assert(e == m + b);
    assert forall|k: int| 0 <= k < e.len() implies (#[trigger] e[k]).1 == f.name@ by {
        if k >= m.len() {
            assert(e[k] == b[k - m.len()]);
        }
    }
}

} // verus!
