//! The stack virtual machine: executes a linear instruction list against an
//! operand stack and a constant pool. The last value discarded by a pop
//! instruction is the externally observable result of a run.

use crate::code::Instruction;
use crate::code::Instructions;
use crate::compiler;
use crate::compiler::compile_expr_v;
use crate::compiler::compile_program_v;
use crate::compiler::compile_stmt_v;
use crate::compiler::infix_instruction_v;
use crate::evaluator::eval_expr_v;
use crate::evaluator::eval_infix_v;
use crate::evaluator::eval_literal_v;
use crate::evaluator::eval_program_v;
use crate::evaluator::eval_stmt_v;
use crate::evaluator::infix_result_v;
use crate::evaluator::integer_infix_v;
use crate::evaluator::object::EnvV;
use crate::parser::ast::ExprV;
use crate::parser::ast::Infix;
use crate::parser::ast::LiteralV;
use crate::parser::ast::StmtV;
use crate::evaluator::object::ObjV;
use crate::evaluator::object::Object;
use crate::evaluator::object::obj_view;
use crate::evaluator::object::objs_view;
use vstd::prelude::*;

verus! {

broadcast use vstd::seq::group_seq_axioms, vstd::std_specs::vec::group_vec_axioms;

/// What one run of the machine from instruction `i` yields: the run result
/// (a fatal error carries its message), the final operand stack, and the
/// final last-popped slot. Arithmetic opcodes pop the right operand first,
/// then the left; both must be integers. Stack underflow, an out-of-range
/// constant index, division by zero and overflow are fatal run errors.
pub open spec fn run_v(
    ins: Seq<Instruction>,
    consts: Seq<ObjV>,
    i: int,
    stack: Seq<ObjV>,
    last: Option<ObjV>,
) -> (Result<(), Seq<char>>, Seq<ObjV>, Option<ObjV>)
    decreases ins.len() - i,
{
    if i < 0 || i >= ins.len() {
        (Ok(()), stack, last)
    } else {
        match ins[i] {
            Instruction::OpConstant(x) => if x < consts.len() {
                run_v(ins, consts, i + 1, stack.push(consts[x as int]), last)
            } else {
                (Err("constant index out of range"@), stack, last)
            },
            Instruction::OpTrue => run_v(ins, consts, i + 1, stack.push(ObjV::Boolean(true)), last),
            Instruction::OpFalse => run_v(
                ins,
                consts,
                i + 1,
                stack.push(ObjV::Boolean(false)),
                last,
            ),
            Instruction::OpPop => if stack.len() > 0 {
                run_v(ins, consts, i + 1, stack.drop_last(), Some(stack.last()))
            } else {
                run_v(ins, consts, i + 1, stack, None)
            },
            _ => {
                // A binary arithmetic opcode.
                if stack.len() == 0 {
                    (Err("Not enough operands on stack"@), stack, last)
                } else if stack.len() == 1 {
                    (Err("Not enough operands on stack"@), stack.drop_last(), last)
                } else {
                    let a = stack[stack.len() - 1];
                    let b = stack[stack.len() - 2];
                    let rest = stack.take(stack.len() - 2);
                    match (a, b) {
                        (ObjV::Integer(x), ObjV::Integer(y)) => {
                            let res = binop_v(ins[i], x, y);
                            match res {
                                Ok(v) => run_v(
                                    ins,
                                    consts,
                                    i + 1,
                                    rest.push(ObjV::Integer(v)),
                                    last,
                                ),
                                Err(m) => (Err(m), rest, last),
                            }
                        },
                        _ => (Err("operand type not supported"@), rest, last),
                    }
                }
            },
        }
    }
}

/// The integer result of a binary opcode, where `x` is the operand popped
/// first (the right operand) and `y` the one popped second (the left):
/// addition, left minus right, multiplication, and truncating left over
/// right.
pub open spec fn binop_v(op: Instruction, x: i64, y: i64) -> Result<i64, Seq<char>> {
    match op {
        Instruction::OpAdd => match x.checked_add(y) {
            Some(v) => Ok(v),
            None => Err("integer overflow"@),
        },
        Instruction::OpSubtract => match y.checked_sub(x) {
            Some(v) => Ok(v),
            None => Err("integer overflow"@),
        },
        Instruction::OpMultiply => match x.checked_mul(y) {
            Some(v) => Ok(v),
            None => Err("integer overflow"@),
        },
        Instruction::OpDivide => if x == 0 {
            Err("division by zero"@)
        } else {
            match y.checked_div(x) {
                Some(v) => Ok(v),
                None => Err("integer overflow"@),
            }
        },
        _ => Err("operand type not supported"@),
    }
}

/// The stack virtual machine's run state.
pub struct VM {
    constants: Vec<Object>,
    instructions: Instructions,
    stack: Vec<Object>,
    last_popped: Option<Object>,
}

impl VM {
    /// The instruction list being executed.
    pub closed spec fn ins_v(&self) -> Seq<Instruction> {
        self.instructions@
    }

    /// The constant pool.
    pub closed spec fn consts_v(&self) -> Seq<ObjV> {
        objs_view(self.constants@)
    }

    /// The operand stack.
    pub closed spec fn stack_v(&self) -> Seq<ObjV> {
        objs_view(self.stack@)
    }

    /// The last value discarded by a pop instruction.
    pub closed spec fn last_v(&self) -> Option<ObjV> {
        match self.last_popped {
            Some(o) => Some(o.deep_view()),
            None => None,
        }
    }

    /// A machine ready to run the given bytecode, with an empty stack and an
    /// empty last-popped slot.
    pub fn new(bytecode: compiler::ByteCode) -> (vm: Self)
        ensures
            vm.ins_v() == bytecode.instructions@,
            vm.consts_v() == objs_view(bytecode.constants@),
            vm.stack_v() == Seq::<ObjV>::empty(),
            vm.last_v() is None,
    {
        VM {
            instructions: bytecode.instructions,
            constants: bytecode.constants,
            stack: Vec::new(),
            last_popped: None,
        }
    }

    /// Runs the whole instruction list. A fatal error (stack underflow, a
    /// bad constant index, non-integer operands, division by zero,
    /// overflow) aborts the run and reports its message.
    #[verifier::rlimit(100)]
    pub fn run(&mut self) -> (r: Result<(), String>)
        ensures
            ({
                let (res, st, lp) = run_v(
                    old(self).ins_v(),
                    old(self).consts_v(),
                    0,
                    old(self).stack_v(),
                    old(self).last_v(),
                );
                final(self).ins_v() == old(self).ins_v() && final(self).consts_v() == old(
                    self,
                ).consts_v() && final(self).stack_v() == st && final(self).last_v() == lp && match res {
                    Ok(()) => r is Ok,
                    Err(m) => r matches Err(msg) && msg@ == m,
                }
            }),
    {
        broadcast use crate::evaluator::object::group_object_views;

        let mut pc: usize = 0;
        while pc < self.instructions.len()
            invariant
                pc <= self.instructions@.len(),
                self.ins_v() == old(self).ins_v(),
                self.consts_v() == old(self).consts_v(),
                run_v(
                    old(self).ins_v(),
                    old(self).consts_v(),
                    0,
                    old(self).stack_v(),
                    old(self).last_v(),
                ) == run_v(
                    self.ins_v(),
                    self.consts_v(),
                    pc as int,
                    self.stack_v(),
                    self.last_v(),
                ),
            decreases self.instructions@.len() - pc,
        {
            let instruction = self.instructions[pc];
            match instruction {
                Instruction::OpConstant(x) => {
                    proof {
                        crate::evaluator::object::lemma_objs_view_len(self.constants@);
                    }
                    if x >= self.constants.len() {
                        return Err("constant index out of range".to_owned());
                    }
                    proof {
                        crate::evaluator::object::lemma_objs_view_index(self.constants@, x as int);
                    }
                    let value = self.constants[x].clone();
                    let ghost pre = self.stack@;
                    self.stack.push(value);
                    proof {
                        assert(self.stack@.drop_last() =~= pre);
                    }
                    proof {
                        assert(self.stack_v() == objs_view(pre).push(
                            old(self).consts_v()[x as int],
                        ));
                        assert(self.ins_v()[pc as int] == Instruction::OpConstant(x));
                        assert(x < old(self).consts_v().len());
                        assert(run_v(
                            old(self).ins_v(),
                            old(self).consts_v(),
                            pc as int,
                            objs_view(pre),
                            self.last_v(),
                        ) == run_v(
                            old(self).ins_v(),
                            old(self).consts_v(),
                            pc + 1,
                            objs_view(pre).push(old(self).consts_v()[x as int]),
                            self.last_v(),
                        ));
                        assert(run_v(
                            old(self).ins_v(),
                            old(self).consts_v(),
                            0,
                            old(self).stack_v(),
                            old(self).last_v(),
                        ) == run_v(
                            self.ins_v(),
                            self.consts_v(),
                            pc + 1,
                            self.stack_v(),
                            self.last_v(),
                        ));
                    }
                },
                Instruction::OpTrue => {
                    let ghost pre = self.stack@;
                    self.stack.push(Object::Boolean(true));
                    proof {
                        assert(self.stack@.drop_last() =~= pre);
                    }
                    proof {
                        assert(self.stack@.last() == Object::Boolean(true));
                        assert(obj_view(self.stack@.last()) == ObjV::Boolean(true));
                        assert(objs_view(self.stack@) == objs_view(self.stack@.drop_last()).push(
                            obj_view(self.stack@.last()),
                        ));
                        assert(self.stack_v() == objs_view(pre).push(ObjV::Boolean(true)));
                        assert(run_v(
                            old(self).ins_v(),
                            old(self).consts_v(),
                            pc as int,
                            objs_view(pre),
                            self.last_v(),
                        ) == run_v(
                            old(self).ins_v(),
                            old(self).consts_v(),
                            pc + 1,
                            objs_view(pre).push(ObjV::Boolean(true)),
                            self.last_v(),
                        ));
                        assert(run_v(
                            old(self).ins_v(),
                            old(self).consts_v(),
                            0,
                            old(self).stack_v(),
                            old(self).last_v(),
                        ) == run_v(
                            self.ins_v(),
                            self.consts_v(),
                            pc + 1,
                            self.stack_v(),
                            self.last_v(),
                        ));
                    }
                },
                Instruction::OpFalse => {
                    let ghost pre = self.stack@;
                    self.stack.push(Object::Boolean(false));
                    proof {
                        assert(self.stack@.drop_last() =~= pre);
                        assert(self.stack@.last() == Object::Boolean(false));
                        assert(obj_view(self.stack@.last()) == ObjV::Boolean(false));
                        assert(objs_view(self.stack@) == objs_view(self.stack@.drop_last()).push(
                            obj_view(self.stack@.last()),
                        ));
                        assert(self.stack_v() == objs_view(pre).push(ObjV::Boolean(false)));
                        assert(run_v(
                            old(self).ins_v(),
                            old(self).consts_v(),
                            pc as int,
                            objs_view(pre),
                            self.last_v(),
                        ) == run_v(
                            old(self).ins_v(),
                            old(self).consts_v(),
                            pc + 1,
                            objs_view(pre).push(ObjV::Boolean(false)),
                            self.last_v(),
                        ));
                    }
                },
                Instruction::OpPop => {
                    proof {
                        crate::evaluator::object::lemma_objs_view_len(self.stack@);
                        if self.stack@.len() > 0 {
                            crate::evaluator::object::lemma_objs_view_index(
                                self.stack@,
                                self.stack@.len() - 1,
                            );
                        }
                    }
                    let ghost pre = self.stack@;
                    self.last_popped = self.stack.pop();
                    proof {
                        if pre.len() > 0 {
                            assert(objs_view(self.stack@) =~= objs_view(pre).drop_last()) by {
                                assert(self.stack@ =~= pre.drop_last());
                                lemma_objs_view_drop_last(pre);
                            }
                        }
                    }
                    proof {
                        assert(run_v(
                            old(self).ins_v(),
                            old(self).consts_v(),
                            0,
                            old(self).stack_v(),
                            old(self).last_v(),
                        ) == run_v(
                            self.ins_v(),
                            self.consts_v(),
                            pc + 1,
                            self.stack_v(),
                            self.last_v(),
                        ));
                    }
                },
                _ => {
                    proof {
                        crate::evaluator::object::lemma_objs_view_len(self.stack@);
                        if self.stack@.len() > 0 {
                            crate::evaluator::object::lemma_objs_view_index(
                                self.stack@,
                                self.stack@.len() - 1,
                            );
                        }
                        if self.stack@.len() > 1 {
                            crate::evaluator::object::lemma_objs_view_index(
                                self.stack@,
                                self.stack@.len() - 2,
                            );
                        }
                    }
                    let ghost pre = self.stack@;
                    let a = match self.stack.pop() {
                        Some(x) => x,
                        None => {
                            return Err("Not enough operands on stack".to_owned());
                        },
                    };
                    proof {
                        assert(self.stack@ =~= pre.drop_last());
                        lemma_objs_view_drop_last(pre);
                    }
                    let ghost mid = self.stack@;
                    let b = match self.stack.pop() {
                        Some(x) => x,
                        None => {
                            return Err("Not enough operands on stack".to_owned());
                        },
                    };
                    proof {
                        assert(self.stack@ =~= mid.drop_last());
                        lemma_objs_view_drop_last(mid);
                        assert(objs_view(self.stack@) =~= objs_view(pre).take(
                            objs_view(pre).len() - 2,
                        ));
                    }
                    let res = match (&a, &b) {
                        (Object::Integer(x), Object::Integer(y)) => {
                            match run_binop(instruction, *x, *y) {
                                Ok(v) => Object::Integer(v),
                                Err(m) => {
                                    return Err(m);
                                },
                            }
                        },
                        _ => {
                            return Err("operand type not supported".to_owned());
                        },
                    };
                    let ghost pre2 = self.stack@;
                    self.stack.push(res);
                    proof {
                        assert(self.stack@.drop_last() =~= pre2);
                        assert(a.deep_view() == objs_view(pre)[objs_view(pre).len() - 1]);
                        assert(b.deep_view() == objs_view(pre)[objs_view(pre).len() - 2]);
                        assert(self.stack_v() == objs_view(pre).take(
                            objs_view(pre).len() - 2,
                        ).push(res.deep_view()));
                        assert(run_v(
                            old(self).ins_v(),
                            old(self).consts_v(),
                            pc as int,
                            objs_view(pre),
                            self.last_v(),
                        ) == run_v(
                            old(self).ins_v(),
                            old(self).consts_v(),
                            pc + 1,
                            self.stack_v(),
                            self.last_v(),
                        ));
                        assert(run_v(
                            old(self).ins_v(),
                            old(self).consts_v(),
                            0,
                            old(self).stack_v(),
                            old(self).last_v(),
                        ) == run_v(
                            self.ins_v(),
                            self.consts_v(),
                            pc + 1,
                            self.stack_v(),
                            self.last_v(),
                        ));
                    }
                },
            }
            pc = pc + 1;
        }
        Ok(())
    }

    /// The value on top of the operand stack, for diagnostics.
    pub fn stack_top(&self) -> (r: Option<&Object>)
        ensures
            match r {
                Some(o) => self.stack_v().len() > 0 && o.deep_view() == self.stack_v().last(),
                None => self.stack_v().len() == 0,
            },
    {
        proof {
            crate::evaluator::object::lemma_objs_view_len(self.stack@);
            if self.stack@.len() > 0 {
                crate::evaluator::object::lemma_objs_view_index(
                    self.stack@,
                    self.stack@.len() - 1,
                );
            }
        }
        if self.stack.len() == 0 {
            None
        } else {
            Some(&self.stack[self.stack.len() - 1])
        }
    }

    /// The last value a pop instruction discarded: the observable result of
    /// running a compiled program.
    pub fn last_popped(&self) -> (r: Option<&Object>)
        ensures
            match r {
                Some(o) => self.last_v() == Some(o.deep_view()),
                None => self.last_v() is None,
            },
    {
        match &self.last_popped {
            Some(o) => Some(o),
            None => None,
        }
    }
}

/// Runs one binary arithmetic opcode over its integer operands.
fn run_binop(op: Instruction, x: i64, y: i64) -> (r: Result<i64, String>)
    ensures
        ({
            match binop_v(op, x, y) {
                Ok(v) => r == Ok::<i64, String>(v),
                Err(m) => r matches Err(msg) && msg@ == m,
            }
        }),
{
    match op {
        Instruction::OpAdd => match x.checked_add(y) {
            Some(v) => Ok(v),
            None => Err("integer overflow".to_owned()),
        },
        Instruction::OpSubtract => match y.checked_sub(x) {
            Some(v) => Ok(v),
            None => Err("integer overflow".to_owned()),
        },
        Instruction::OpMultiply => match x.checked_mul(y) {
            Some(v) => Ok(v),
            None => Err("integer overflow".to_owned()),
        },
        Instruction::OpDivide => {
            if x == 0 {
                Err("division by zero".to_owned())
            } else {
                match y.checked_div(x) {
                    Some(v) => Ok(v),
                    None => Err("integer overflow".to_owned()),
                }
            }
        },
        _ => Err("operand type not supported".to_owned()),
    }
}

/// Dropping the last element of a value list drops the last model.
pub proof fn lemma_objs_view_drop_last(os: Seq<Object>)
    requires
        os.len() > 0,
    ensures
        objs_view(os.drop_last()) == objs_view(os).drop_last(),
{
    crate::evaluator::object::lemma_objs_view_len(os);
    crate::evaluator::object::lemma_objs_view_len(os.drop_last());
    assert(objs_view(os) == objs_view(os.drop_last()).push(
        crate::evaluator::object::obj_view(os.last()),
    ));
    assert(objs_view(os).drop_last() =~= objs_view(os.drop_last()));
}


/// The arithmetic subset both back ends cover: integer literals and the
/// four arithmetic operators.
pub open spec fn is_int_arith(e: ExprV) -> bool
    decreases e,
{
    match e {
        ExprV::LiteralExpr(l) => l matches LiteralV::Int(_),
        ExprV::Infix(l, op, r) => (op == Infix::Plus || op == Infix::Minus || op
            == Infix::Multiply || op == Infix::Divide) && is_int_arith(*l) && is_int_arith(*r),
        _ => false,
    }
}

/// The value of an arithmetic expression, where every operation stays in
/// the 64-bit range and no division by zero occurs.
pub open spec fn arith_val(e: ExprV) -> Option<i64>
    decreases e,
{
    match e {
        ExprV::LiteralExpr(l) => match l {
            LiteralV::Int(x) => Some(x),
            _ => None,
        },
        ExprV::Infix(l, op, r) => match (arith_val(*l), arith_val(*r)) {
            (Some(a), Some(b)) => match op {
                Infix::Plus => a.checked_add(b),
                Infix::Minus => a.checked_sub(b),
                Infix::Multiply => a.checked_mul(b),
                Infix::Divide => if b == 0 {
                    None
                } else {
                    a.checked_div(b)
                },
                _ => None,
            },
            _ => None,
        },
        _ => None,
    }
}

/// The arithmetic value of an expression statement of the subset.
pub open spec fn stmt_arith_val(s: StmtV) -> Option<i64> {
    match s {
        StmtV::ExprStmt(e) => arith_val(e),
        _ => None,
    }
}

/// Whether a statement is an expression statement of the subset whose
/// value is defined.
pub open spec fn is_arith_stmt(s: StmtV) -> bool {
    match s {
        StmtV::ExprStmt(e) => is_int_arith(e) && arith_val(e) is Some,
        _ => false,
    }
}

/// The evaluator yields exactly the arithmetic value of a subset
/// expression, in any environment and with any fuel, and leaves the
/// environment unchanged.
pub proof fn lemma_arith_eval(e: ExprV, env: EnvV, fuel: nat)
    requires
        is_int_arith(e),
        arith_val(e) is Some,
    ensures
        eval_expr_v(e, env, fuel) == (ObjV::Integer(arith_val(e).unwrap()), env),
    decreases e,
{
    match e {
        ExprV::LiteralExpr(l) => {
            assert(eval_literal_v(l, env, fuel) == (
                ObjV::Integer(arith_val(e).unwrap()),
                env,
            ));
            assert(eval_expr_v(e, env, fuel) == eval_literal_v(l, env, fuel));
        },
        ExprV::Infix(lbox, op, rbox) => {
            let a = arith_val(*lbox).unwrap();
            let b = arith_val(*rbox).unwrap();
            lemma_arith_eval(*lbox, env, fuel);
            lemma_arith_eval(*rbox, env, fuel);
            assert(integer_infix_v(a, op, b) == ObjV::Integer(arith_val(e).unwrap()));
            assert(infix_result_v(ObjV::Integer(a), op, ObjV::Integer(b)) == integer_infix_v(
                a,
                op,
                b,
            ));
            assert(eval_infix_v(*lbox, op, *rbox, env, fuel) == (
                ObjV::Integer(arith_val(e).unwrap()),
                env,
            ));
            assert(eval_expr_v(e, env, fuel) == eval_infix_v(*lbox, op, *rbox, env, fuel));
        },
        _ => {},
    }
}

/// A prefix of a prefix is a prefix.
proof fn lemma_prefix_trans<A>(a: Seq<A>, b: Seq<A>, c: Seq<A>)
    requires
        a.len() <= b.len() <= c.len(),
        b.take(a.len() as int) == a,
        c.take(b.len() as int) == b,
    ensures
        c.take(a.len() as int) == a,
{
    assert forall|i: int| 0 <= i < a.len() implies c.take(a.len() as int)[i] == a[i] by {
        assert(b[i] == c.take(b.len() as int)[i]);
        assert(a[i] == b.take(a.len() as int)[i]);
    }
    assert(c.take(a.len() as int) =~= a);
}

/// Compiling an expression of the subset succeeds and only appends: the
/// prior instruction list and constant pool are prefixes of the result.
pub proof fn lemma_compile_arith_expr(e: ExprV, ins: Seq<Instruction>, consts: Seq<ObjV>)
    requires
        is_int_arith(e),
    ensures
        ({
            let (r, i2, c2) = compile_expr_v(e, ins, consts);
            &&& r is Ok
            &&& ins.len() <= i2.len()
            &&& consts.len() <= c2.len()
            &&& i2.take(ins.len() as int) == ins
            &&& c2.take(consts.len() as int) == consts
        }),
    decreases e,
{
    match e {
        ExprV::LiteralExpr(l) => {
            let (r, i2, c2) = compile_expr_v(e, ins, consts);
            assert(i2.take(ins.len() as int) =~= ins);
            assert(c2.take(consts.len() as int) =~= consts);
        },
        ExprV::Infix(lbox, op, rbox) => {
            let (r1, ia, ca) = compile_expr_v(*lbox, ins, consts);
            lemma_compile_arith_expr(*lbox, ins, consts);
            let (r2, ib, cb) = compile_expr_v(*rbox, ia, ca);
            lemma_compile_arith_expr(*rbox, ia, ca);
            let (r, i2, c2) = compile_expr_v(e, ins, consts);
            assert(i2.take(ib.len() as int) =~= ib);
            lemma_prefix_trans(ins, ia, ib);
            lemma_prefix_trans(ins, ib, i2);
            lemma_prefix_trans(consts, ca, cb);
        },
        _ => {},
    }
}

/// Running the compiled code of a subset expression from its first
/// instruction pushes exactly the expression's value and continues behind
/// its last instruction; the stack below and the last-popped slot are
/// untouched.
proof fn lemma_compiled_expr_runs(
    e: ExprV,
    ins_pre: Seq<Instruction>,
    consts_pre: Seq<ObjV>,
    ins_full: Seq<Instruction>,
    consts_full: Seq<ObjV>,
    stack: Seq<ObjV>,
    last: Option<ObjV>,
)
    requires
        is_int_arith(e),
        arith_val(e) is Some,
        consts_full.len() <= usize::MAX,
        ({
            let (r, i2, c2) = compile_expr_v(e, ins_pre, consts_pre);
            &&& i2.len() <= ins_full.len()
            &&& c2.len() <= consts_full.len()
            &&& ins_full.take(i2.len() as int) == i2
            &&& consts_full.take(c2.len() as int) == c2
        }),
    ensures
        ({
            let (r, i2, c2) = compile_expr_v(e, ins_pre, consts_pre);
            run_v(ins_full, consts_full, ins_pre.len() as int, stack, last) == run_v(
                ins_full,
                consts_full,
                i2.len() as int,
                stack.push(ObjV::Integer(arith_val(e).unwrap())),
                last,
            )
        }),
    decreases e,
{
    lemma_compile_arith_expr(e, ins_pre, consts_pre);
    let (r, i2, c2) = compile_expr_v(e, ins_pre, consts_pre);
    match e {
        ExprV::LiteralExpr(l) => {
            let x = arith_val(e).unwrap();
            let k = consts_pre.len() as usize;
            assert(k == consts_pre.len());
            assert(i2 == ins_pre.push(Instruction::OpConstant(k)));
            assert(c2 == consts_pre.push(ObjV::Integer(x)));
            assert(ins_full[ins_pre.len() as int] == Instruction::OpConstant(k)) by {
                assert(ins_full.take(i2.len() as int)[ins_pre.len() as int] == i2[ins_pre.len() as int]);
            }
            assert(consts_full[k as int] == ObjV::Integer(x)) by {
                assert(consts_full.take(c2.len() as int)[k as int] == c2[k as int]);
            }
            assert((k as int) < consts_full.len());
            assert(run_v(ins_full, consts_full, ins_pre.len() as int, stack, last) == run_v(
                ins_full,
                consts_full,
                ins_pre.len() as int + 1,
                stack.push(consts_full[k as int]),
                last,
            ));
            assert(i2.len() == ins_pre.len() + 1);
        },
        ExprV::Infix(lbox, op, rbox) => {
            let a = arith_val(*lbox).unwrap();
            let b = arith_val(*rbox).unwrap();
            let n = arith_val(e).unwrap();
            let (r1, ia, ca) = compile_expr_v(*lbox, ins_pre, consts_pre);
            let (r2, ib, cb) = compile_expr_v(*rbox, ia, ca);
            let opi = match infix_instruction_v(op) {
                Ok(o) => o,
                Err(_) => Instruction::OpPop,
            };
            assert(i2 == ib.push(opi));
            assert(c2 == cb);
            lemma_compile_arith_expr(*lbox, ins_pre, consts_pre);
            lemma_compile_arith_expr(*rbox, ia, ca);
            assert(i2.take(ib.len() as int) =~= ib);
            assert(ins_full.take(ib.len() as int) == ib) by {
                lemma_prefix_trans(ib, i2, ins_full);
            }
            assert(ins_full.take(ia.len() as int) == ia) by {
                lemma_prefix_trans(ia, ib, ins_full);
            }
            assert(consts_full.take(ca.len() as int) == ca) by {
                lemma_prefix_trans(ca, cb, consts_full);
            }
            lemma_compiled_expr_runs(*lbox, ins_pre, consts_pre, ins_full, consts_full, stack, last);
            lemma_compiled_expr_runs(
                *rbox,
                ia,
                ca,
                ins_full,
                consts_full,
                stack.push(ObjV::Integer(a)),
                last,
            );
            let s2 = stack.push(ObjV::Integer(a)).push(ObjV::Integer(b));
            assert(ins_full[ib.len() as int] == opi) by {
                assert(ins_full.take(i2.len() as int)[ib.len() as int] == i2[ib.len() as int]);
            }
            assert(s2.len() == stack.len() + 2);
            assert(s2[s2.len() - 1] == ObjV::Integer(b));
            assert(s2[s2.len() - 2] == ObjV::Integer(a));
            assert(s2.take(s2.len() - 2) =~= stack);
            assert(binop_v(opi, b, a) == Ok::<i64, Seq<char>>(n));
            assert(run_v(ins_full, consts_full, ib.len() as int, s2, last) == run_v(
                ins_full,
                consts_full,
                ib.len() as int + 1,
                stack.push(ObjV::Integer(n)),
                last,
            ));
            assert(i2.len() == ib.len() + 1);
        },
        _ => {},
    }
}

/// Compiling a program of subset statements succeeds and only appends.
pub proof fn lemma_compile_arith_program(b: Seq<StmtV>, j: int, ins: Seq<Instruction>, consts: Seq<ObjV>)
    requires
        0 <= j <= b.len(),
        forall|k: int| j <= k < b.len() ==> is_arith_stmt(#[trigger] b[k]),
    ensures
        ({
            let (r, i2, c2) = compile_program_v(b, j, ins, consts);
            &&& r is Ok
            &&& ins.len() <= i2.len()
            &&& consts.len() <= c2.len()
            &&& i2.take(ins.len() as int) == ins
            &&& c2.take(consts.len() as int) == consts
        }),
    decreases b.len() - j,
{
    if j < b.len() {
        match b[j] {
            StmtV::ExprStmt(e) => {
                lemma_compile_arith_expr(e, ins, consts);
                let (re, ie, ce) = compile_expr_v(e, ins, consts);
                let im = ie.push(Instruction::OpPop);
                assert(im.take(ie.len() as int) =~= ie);
                lemma_compile_arith_program(b, j + 1, im, ce);
                let (r, i2, c2) = compile_program_v(b, j, ins, consts);
                lemma_prefix_trans(ie, im, i2);
                lemma_prefix_trans(ins, ie, i2);
                lemma_prefix_trans(consts, ce, c2);
            },
            _ => {},
        }
    } else {
        let (r, i2, c2) = compile_program_v(b, j, ins, consts);
        assert(i2.take(ins.len() as int) =~= ins);
        assert(c2.take(consts.len() as int) =~= consts);
    }
}

/// Running the compiled code of subset statements from `j` on: no fault,
/// the stack returns to empty, and the last-popped slot ends at the value
/// of the final statement (or stays as given when none follow).
proof fn lemma_compiled_program_runs(
    b: Seq<StmtV>,
    j: int,
    ins_pre: Seq<Instruction>,
    consts_pre: Seq<ObjV>,
    ins_full: Seq<Instruction>,
    consts_full: Seq<ObjV>,
    last: Option<ObjV>,
)
    requires
        0 <= j <= b.len(),
        forall|k: int| j <= k < b.len() ==> is_arith_stmt(#[trigger] b[k]),
        consts_full.len() <= usize::MAX,
        compile_program_v(b, j, ins_pre, consts_pre).0 is Ok,
        compile_program_v(b, j, ins_pre, consts_pre).1 == ins_full,
        compile_program_v(b, j, ins_pre, consts_pre).2 == consts_full,
    ensures
        run_v(ins_full, consts_full, ins_pre.len() as int, Seq::empty(), last) == (
            Ok::<(), Seq<char>>(()),
            Seq::<ObjV>::empty(),
            if j < b.len() {
                Some(ObjV::Integer(stmt_arith_val(b.last()).unwrap()))
            } else {
                last
            },
        ),
    decreases b.len() - j,
{
    if j == b.len() {
        assert(ins_full == ins_pre);
        assert(run_v(ins_full, consts_full, ins_pre.len() as int, Seq::empty(), last) == (
            Ok::<(), Seq<char>>(()),
            Seq::<ObjV>::empty(),
            last,
        ));
    } else {
        match b[j] {
            StmtV::ExprStmt(e) => {
                let n = arith_val(e).unwrap();
                lemma_compile_arith_expr(e, ins_pre, consts_pre);
                let (re, ie, ce) = compile_expr_v(e, ins_pre, consts_pre);
                let im = ie.push(Instruction::OpPop);
                assert(compile_program_v(b, j + 1, im, ce).0 is Ok);
                assert(compile_program_v(b, j + 1, im, ce).1 == ins_full);
                assert(compile_program_v(b, j + 1, im, ce).2 == consts_full);
                lemma_compile_arith_program(b, j + 1, im, ce);
                assert(im.take(ie.len() as int) =~= ie);
                assert(ins_full.take(ie.len() as int) == ie) by {
                    lemma_prefix_trans(ie, im, ins_full);
                }
                lemma_compiled_expr_runs(
                    e,
                    ins_pre,
                    consts_pre,
                    ins_full,
                    consts_full,
                    Seq::empty(),
                    last,
                );
                let s1 = Seq::<ObjV>::empty().push(ObjV::Integer(n));
                assert(ins_full[ie.len() as int] == Instruction::OpPop) by {
                    assert(ins_full.take(im.len() as int)[ie.len() as int] == im[ie.len() as int]);
                }
                assert(s1.len() == 1);
                assert(s1.drop_last() =~= Seq::<ObjV>::empty());
                assert(s1.last() == ObjV::Integer(n));
                assert(run_v(ins_full, consts_full, ie.len() as int, s1, last) == run_v(
                    ins_full,
                    consts_full,
                    ie.len() as int + 1,
                    Seq::empty(),
                    Some(ObjV::Integer(n)),
                ));
                assert(im.len() == ie.len() + 1);
                lemma_compiled_program_runs(
                    b,
                    j + 1,
                    im,
                    ce,
                    ins_full,
                    consts_full,
                    Some(ObjV::Integer(n)),
                );
                if j + 1 == b.len() {
                    assert(b.last() == b[j]);
                }
            },
            _ => {},
        }
    }
}

/// The evaluator on a program of subset statements: the program's value is
/// the last statement's arithmetic value, and the environment is left
/// unchanged.
pub proof fn lemma_arith_program_eval(b: Seq<StmtV>, j: int, acc: ObjV, env: EnvV, fuel: nat)
    requires
        0 <= j <= b.len(),
        forall|k: int| j <= k < b.len() ==> is_arith_stmt(#[trigger] b[k]),
    ensures
        eval_program_v(b, j, acc, env, fuel) == (
            if j < b.len() {
                ObjV::Integer(stmt_arith_val(b.last()).unwrap())
            } else {
                acc
            },
            env,
        ),
    decreases b.len() - j,
{
    if j < b.len() {
        match b[j] {
            StmtV::ExprStmt(e) => {
                let n = arith_val(e).unwrap();
                lemma_arith_eval(e, env, fuel);
                assert(eval_stmt_v(b[j], env, fuel) == (ObjV::Integer(n), env));
                lemma_arith_program_eval(b, j + 1, ObjV::Integer(n), env, fuel);
                if j + 1 == b.len() {
                    assert(b.last() == b[j]);
                }
            },
            _ => {},
        }
    }
}

/// The two back ends agree on the whole arithmetic subset: a program of
/// expression statements over integer literals and the four arithmetic
/// operators, whose value is defined, compiles, runs without a fault,
/// leaves the operand stack empty, and parks in the machine's last-popped
/// slot exactly the integer the tree-walking evaluator computes for the
/// program, whatever environment and fuel the evaluator is given. The one
/// machine limit: the constant pool must fit the machine's index type.
pub proof fn lemma_vm_matches_evaluator(b: Seq<StmtV>, env: EnvV, fuel: nat)
    requires
        b.len() > 0,
        forall|k: int| 0 <= k < b.len() ==> is_arith_stmt(#[trigger] b[k]),
        compile_program_v(b, 0, Seq::empty(), Seq::empty()).2.len() <= usize::MAX,
    ensures
        ({
            let (r, ins, consts) = compile_program_v(b, 0, Seq::empty(), Seq::empty());
            let (res, st, lp) = run_v(ins, consts, 0, Seq::empty(), None);
            let (ev, env2) = eval_program_v(b, 0, ObjV::Null, env, fuel);
            &&& r is Ok
            &&& res is Ok
            &&& st == Seq::<ObjV>::empty()
            &&& ev == ObjV::Integer(stmt_arith_val(b.last()).unwrap())
            &&& lp == Some(ev)
            &&& env2 == env
        }),
{
    lemma_compile_arith_program(b, 0, Seq::empty(), Seq::empty());
    let (r, ins, consts) = compile_program_v(b, 0, Seq::empty(), Seq::empty());
    lemma_compiled_program_runs(b, 0, Seq::empty(), Seq::empty(), ins, consts, None);
    lemma_arith_program_eval(b, 0, ObjV::Null, env, fuel);
}

} // verus!
