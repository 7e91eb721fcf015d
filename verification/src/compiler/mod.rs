//! The bytecode compiler: translates the literal/arithmetic subset of the
//! language into a linear instruction list and a constant pool. Any
//! construct outside the subset is a compile error.

use crate::code::Instruction;
use crate::code::Instructions;
use crate::evaluator::object::Object;
use crate::evaluator::object::ObjV;
use crate::evaluator::object::objs_view;
use crate::parser::ast::Expr;
use crate::parser::ast::ExprV;
use crate::parser::ast::Infix;
use crate::parser::ast::Literal;
use crate::parser::ast::LiteralV;
use crate::parser::ast::Program;
use crate::parser::ast::Stmt;
use crate::parser::ast::StmtV;
use crate::parser::ast::block_view;
use crate::parser::ast::expr_size;
use crate::parser::ast::lemma_block_view_index;
use crate::parser::ast::lemma_block_view_len;
use crate::parser::ast::literal_size;
use vstd::prelude::*;

verus! {

broadcast use vstd::seq::group_seq_axioms, vstd::std_specs::vec::group_vec_axioms;

/// What compiling a literal does to the instruction list and the constant
/// pool: integers enter the pool (never deduplicated) and are loaded by
/// index; booleans compile to dedicated opcodes; everything else is outside
/// the subset and leaves both untouched. Every outcome carries the
/// resulting state.
pub open spec fn compile_literal_v(
    l: LiteralV,
    ins: Seq<Instruction>,
    consts: Seq<ObjV>,
) -> (Result<(), Seq<char>>, Seq<Instruction>, Seq<ObjV>) {
    match l {
        LiteralV::Int(x) => (
            Ok(()),
            ins.push(Instruction::OpConstant(consts.len() as usize)),
            consts.push(ObjV::Integer(x)),
        ),
        LiteralV::Bool(b) => (
            Ok(()),
            ins.push(
                if b {
                    Instruction::OpTrue
                } else {
                    Instruction::OpFalse
                },
            ),
            consts,
        ),
        _ => (Err("Not supported yet!"@), ins, consts),
    }
}

/// The opcode of an infix operator, for the four arithmetic operators of
/// the subset.
pub open spec fn infix_instruction_v(op: Infix) -> Result<Instruction, Seq<char>> {
    match op {
        Infix::Plus => Ok(Instruction::OpAdd),
        Infix::Multiply => Ok(Instruction::OpMultiply),
        Infix::Minus => Ok(Instruction::OpSubtract),
        Infix::Divide => Ok(Instruction::OpDivide),
        _ => Err("Not supported yet!"@),
    }
}

/// What compiling an expression does: operands compile in source order,
/// left before right, followed by the operator instruction. An unsupported
/// construct stops compilation where it stands, keeping whatever the
/// operands already emitted.
pub open spec fn compile_expr_v(
    e: ExprV,
    ins: Seq<Instruction>,
    consts: Seq<ObjV>,
) -> (Result<(), Seq<char>>, Seq<Instruction>, Seq<ObjV>)
    decreases expr_size(e),
{
    match e {
        ExprV::Infix(l, op, r) => {
            let (r1, ins1, consts1) = compile_expr_v(*l, ins, consts);
            match r1 {
                Ok(()) => {
                    let (r2, ins2, consts2) = compile_expr_v(*r, ins1, consts1);
                    match r2 {
                        Ok(()) => match infix_instruction_v(op) {
                            Ok(op_ins) => (Ok(()), ins2.push(op_ins), consts2),
                            Err(m) => (Err(m), ins2, consts2),
                        },
                        Err(m) => (Err(m), ins2, consts2),
                    }
                },
                Err(m) => (Err(m), ins1, consts1),
            }
        },
        ExprV::LiteralExpr(l) => compile_literal_v(l, ins, consts),
        _ => (Err("Not supported yet!"@), ins, consts),
    }
}

/// What compiling a statement does: only expression statements are in the
/// subset; each one's value is discarded with a trailing pop so the
/// machine's last-popped slot tracks the most recent statement's value. A
/// statement outside the subset leaves the state untouched.
pub open spec fn compile_stmt_v(
    s: StmtV,
    ins: Seq<Instruction>,
    consts: Seq<ObjV>,
) -> (Result<(), Seq<char>>, Seq<Instruction>, Seq<ObjV>) {
    match s {
        StmtV::ExprStmt(e) => {
            let (r1, ins1, consts1) = compile_expr_v(e, ins, consts);
            match r1 {
                Ok(()) => (Ok(()), ins1.push(Instruction::OpPop), consts1),
                Err(m) => (Err(m), ins1, consts1),
            }
        },
        _ => (Err("Not supported yet!"@), ins, consts),
    }
}

/// What compiling a program from statement `i` on does, stopping at the
/// first unsupported construct with the state compiled up to it.
pub open spec fn compile_program_v(
    b: Seq<StmtV>,
    i: int,
    ins: Seq<Instruction>,
    consts: Seq<ObjV>,
) -> (Result<(), Seq<char>>, Seq<Instruction>, Seq<ObjV>)
    decreases b.len() - i,
{
    if i < 0 || i >= b.len() {
        (Ok(()), ins, consts)
    } else {
        let (r1, ins1, consts1) = compile_stmt_v(b[i], ins, consts);
        match r1 {
            Ok(()) => compile_program_v(b, i + 1, ins1, consts1),
            Err(m) => (Err(m), ins1, consts1),
        }
    }
}

/// The bytecode compiler: accumulates instructions and the constant pool.
pub struct Compiler {
    instructions: Instructions,
    constants: Vec<Object>,
}

/// The compiled output: a linear instruction list and its constant pool.
pub struct ByteCode {
    pub instructions: Instructions,
    pub constants: Vec<Object>,
}

impl Compiler {
    /// The instructions emitted so far.
    pub closed spec fn ins_v(&self) -> Seq<Instruction> {
        self.instructions@
    }

    /// The constant pool built so far.
    pub closed spec fn consts_v(&self) -> Seq<ObjV> {
        objs_view(self.constants@)
    }

    pub fn new() -> (c: Self)
        ensures
            c.ins_v() == Seq::<Instruction>::empty(),
            c.consts_v() == Seq::<ObjV>::empty(),
    {
        Compiler { instructions: Vec::new(), constants: Vec::new() }
    }

    /// Appends a constant to the pool and returns its index.
    fn add_constant(&mut self, obj: Object) -> (id: usize)
        ensures
            final(self).ins_v() == old(self).ins_v(),
            final(self).consts_v() == old(self).consts_v().push(obj.deep_view()),
            id == old(self).consts_v().len(),
    {
        proof {
            crate::evaluator::object::lemma_objs_view_len(self.constants@);
        }
        self.constants.push(obj);
        proof {
            assert(self.constants@.drop_last() =~= old(self).constants@);
        }
        self.constants.len() - 1
    }

    /// Compiles a literal of the subset.
    pub fn compile_literal(&mut self, lit: Literal) -> (r: Result<(), String>)
        ensures
            ({
                let (r0, ins1, consts1) = compile_literal_v(
                    lit.deep_view(),
                    old(self).ins_v(),
                    old(self).consts_v(),
                );
                &&& final(self).ins_v() == ins1
                &&& final(self).consts_v() == consts1
                &&& match (r, r0) {
                    (Ok(()), Ok(())) => true,
                    (Err(m), Err(m0)) => m@ == m0,
                    _ => false,
                }
            }),
    {
        match lit {
            Literal::Int(x) => {
                let id = self.add_constant(Object::Integer(x));
                self.instructions.push(Instruction::OpConstant(id));
            },
            Literal::Bool(x) => {
                let op = if x {
                    Instruction::OpTrue
                } else {
                    Instruction::OpFalse
                };
                self.instructions.push(op);
            },
            _ => {
                return Err("Not supported yet!".to_owned());
            },
        }
        Ok(())
    }

    /// The opcode of an infix operator of the subset.
    fn push_infix(&mut self, op: &Infix) -> (r: Result<(), String>)
        ensures
            ({
                match infix_instruction_v(*op) {
                    Ok(op_ins) => r is Ok && final(self).ins_v() == old(self).ins_v().push(op_ins)
                        && final(self).consts_v() == old(self).consts_v(),
                    Err(m) => r matches Err(msg) && msg@ == m && *final(self) == *old(self),
                }
            }),
    {
        let ins = match op {
            Infix::Plus => Instruction::OpAdd,
            Infix::Multiply => Instruction::OpMultiply,
            Infix::Minus => Instruction::OpSubtract,
            Infix::Divide => Instruction::OpDivide,
            _ => {
                return Err("Not supported yet!".to_owned());
            },
        };
        self.instructions.push(ins);
        Ok(())
    }

    /// Compiles an expression of the subset: left operand, right operand,
    /// then the operator.
    pub fn compile_expr(&mut self, expr: Expr) -> (r: Result<(), String>)
        ensures
            ({
                let (r0, ins1, consts1) = compile_expr_v(
                    expr.deep_view(),
                    old(self).ins_v(),
                    old(self).consts_v(),
                );
                &&& final(self).ins_v() == ins1
                &&& final(self).consts_v() == consts1
                &&& match (r, r0) {
                    (Ok(()), Ok(())) => true,
                    (Err(m), Err(m0)) => m@ == m0,
                    _ => false,
                }
            }),
        decreases expr_size(expr.deep_view()),
    {
        match expr {
            Expr::Infix(left, op, right) => {
                match self.compile_expr(*left) {
                    Ok(()) => {},
                    Err(m) => {
                        return Err(m);
                    },
                }
                match self.compile_expr(*right) {
                    Ok(()) => {},
                    Err(m) => {
                        return Err(m);
                    },
                }
                match self.push_infix(&op) {
                    Ok(()) => {},
                    Err(m) => {
                        return Err(m);
                    },
                }
            },
            Expr::LiteralExpr(lit) => {
                match self.compile_literal(lit) {
                    Ok(()) => {},
                    Err(m) => {
                        return Err(m);
                    },
                }
            },
            _ => {
                return Err("Not supported yet!".to_owned());
            },
        }
        Ok(())
    }

    /// Compiles a statement of the subset: an expression statement followed
    /// by a pop.
    pub fn compile_statement(&mut self, stmt: Stmt) -> (r: Result<(), String>)
        ensures
            ({
                let (r0, ins1, consts1) = compile_stmt_v(
                    stmt.deep_view(),
                    old(self).ins_v(),
                    old(self).consts_v(),
                );
                &&& final(self).ins_v() == ins1
                &&& final(self).consts_v() == consts1
                &&& match (r, r0) {
                    (Ok(()), Ok(())) => true,
                    (Err(m), Err(m0)) => m@ == m0,
                    _ => false,
                }
            }),
    {
        match stmt {
            Stmt::ExprStmt(x) => {
                match self.compile_expr(x) {
                    Ok(()) => {},
                    Err(m) => {
                        return Err(m);
                    },
                }
                self.instructions.push(Instruction::OpPop);
                Ok(())
            },
            _ => Err("Not supported yet!".to_owned()),
        }
    }

    /// Compiles a whole program, stopping at the first unsupported
    /// construct.
    pub fn compile(&mut self, program: Program) -> (r: Result<(), String>)
        ensures
            ({
                let (r0, ins1, consts1) = compile_program_v(
                    block_view(program@),
                    0,
                    old(self).ins_v(),
                    old(self).consts_v(),
                );
                &&& final(self).ins_v() == ins1
                &&& final(self).consts_v() == consts1
                &&& match (r, r0) {
                    (Ok(()), Ok(())) => true,
                    (Err(m), Err(m0)) => m@ == m0,
                    _ => false,
                }
            }),
    {
        let ghost bv = block_view(program@);
        proof {
            lemma_block_view_len(program@);
        }
        let mut i: usize = 0;
        while i < program.len()
            invariant
                i <= program@.len(),
                bv == block_view(program@),
                bv.len() == program@.len(),
                compile_program_v(bv, 0, old(self).ins_v(), old(self).consts_v())
                    == compile_program_v(bv, i as int, self.ins_v(), self.consts_v()),
            decreases program@.len() - i,
        {
            proof {
                lemma_block_view_index(program@, i as int);
            }
            let stmt = program[i].clone();
            match self.compile_statement(stmt) {
                Ok(()) => {},
                Err(m) => {
                    return Err(m);
                },
            }
            i = i + 1;
        }
        Ok(())
    }

    /// The compiled output so far: a copy of the instruction list and the
    /// constant pool.
    pub fn bytecode(&self) -> (bc: ByteCode)
        ensures
            bc.instructions@ == self.ins_v(),
            objs_view(bc.constants@) == self.consts_v(),
    {
        let mut ins: Instructions = Vec::new();
        let mut i: usize = 0;
        while i < self.instructions.len()
            invariant
                i <= self.instructions@.len(),
                ins@ == self.instructions@.take(i as int),
            decreases self.instructions@.len() - i,
        {
            ins.push(self.instructions[i]);
            i = i + 1;
            proof {
                assert(ins@ =~= self.instructions@.take(i as int));
            }
        }
        proof {
            assert(self.instructions@.take(self.instructions@.len() as int)
                =~= self.instructions@);
        }
        let consts = crate::evaluator::object::clone_objects(&self.constants);
        ByteCode { instructions: ins, constants: consts }
    }
}

} // verus!
