//! Multi-function compilation contexts: functions, their blocks, and an
//! insertion cursor.
use vstd::prelude::*;
use crate::ir::{Type, Expr, ExprM, BuildError, exprs_model};

verus! {

/// A block: statements run for their effects, then one terminating return.
#[derive(Debug)]
pub struct Block {
    pub statements: Vec<Expr>,
    pub terminator: Option<Expr>,
}

pub struct BlockM {
    pub statements: Seq<ExprM>,
    pub terminator: Option<ExprM>,
}

impl View for Block {
    type V = BlockM;

    open spec fn view(&self) -> BlockM {
        BlockM {
            statements: exprs_model(self.statements@),
            terminator: match self.terminator {
                Some(t) => Some(t@),
                None => None,
            },
        }
    }
}

pub open spec fn blocks_model(bs: Seq<Block>) -> Seq<BlockM> {
    bs.map_values(|b: Block| b@)
}

/// A function of a context.
#[derive(Debug)]
pub struct Function {
    pub name: Vec<u8>,
    pub return_type: Type,
    pub param_types: Vec<Type>,
    pub blocks: Vec<Block>,
}

pub struct FunctionM {
    pub name: Seq<u8>,
    pub return_type: Type,
    pub param_types: Seq<Type>,
    pub blocks: Seq<BlockM>,
}

impl View for Function {
    type V = FunctionM;

    open spec fn view(&self) -> FunctionM {
        FunctionM {
            name: self.name@,
            return_type: self.return_type,
            param_types: self.param_types@,
            blocks: blocks_model(self.blocks@),
        }
    }
}

pub open spec fn functions_model(fs: Seq<Function>) -> Seq<FunctionM> {
    fs.map_values(|f: Function| f@)
}

/// A compilation unit of several functions. Statements go to block `block`
/// of the function added last.
#[derive(Debug)]
pub struct Context {
    pub functions: Vec<Function>,
    pub block: usize,
}

pub struct ContextM {
    pub functions: Seq<FunctionM>,
    pub block: nat,
}

impl View for Context {
    type V = ContextM;

    open spec fn view(&self) -> ContextM {
        ContextM { functions: functions_model(self.functions@), block: self.block as nat }
    }
}

/// `n` empty blocks.
pub open spec fn empty_blocks(n: nat) -> Seq<BlockM> {
    Seq::new(n, |i: int| BlockM { statements: Seq::empty(), terminator: None })
}

impl ContextM {
    /// The cursor names a block of the last function.
    pub open spec fn has_cursor(self) -> bool {
        self.functions.len() > 0 && self.block < self.functions.last().blocks.len()
    }

    pub open spec fn current_block(self) -> BlockM {
        self.functions.last().blocks[self.block as int]
    }

    /// This context with the current block replaced by `b`.
    pub open spec fn with_current_block(self, b: BlockM) -> ContextM {
        let f = self.functions.last();
        ContextM {
            functions: self.functions.update(
                self.functions.len() - 1,
                FunctionM { blocks: f.blocks.update(self.block as int, b), ..f },
            ),
            block: self.block,
        }
    }
}

/// An empty context.
pub fn create_context() -> (r: Context)
    ensures
        r@.functions.len() == 0,
        r@.block == 0,
{
    Context { functions: Vec::new(), block: 0 }
}

/// Releases a context and every function, block and expression it owns.
pub fn delete_context(context: Context) {
}

fn empty_block_vec(n: usize) -> (r: Vec<Block>)
    ensures
        blocks_model(r@) == empty_blocks(n as nat),
{
    let mut r: Vec<Block> = Vec::new();
    let mut i: usize = 0;
    while i < n
        invariant
            i <= n,
            blocks_model(r@) == empty_blocks(i as nat),
        decreases n - i,
    {
        let ghost prev = r@;
        let st: Vec<Expr> = Vec::new();
        proof {
            assert(exprs_model(st@) =~= Seq::<ExprM>::empty());
        }
        r.push(Block { statements: st, terminator: None });
        i += 1;
        proof {
            assert(r@ == prev.push(r@.last()));
            assert(blocks_model(r@) =~= blocks_model(prev).push(r@.last()@));
            assert(blocks_model(r@) =~= empty_blocks(i as nat));
        }
    }
    r
}

impl Context {
    /// Appends a function with `num_blocks` empty blocks; it can be referred
    /// to by name at once, before any block is filled. The cursor moves to its
    /// first block.
    pub fn add_function(
        &mut self,
        function_name: Vec<u8>,
        return_type: Type,
        num_parameters: usize,
        parameter_types: Vec<Type>,
        num_blocks: usize,
    ) -> (r: Result<(), BuildError>)
        ensures
            num_parameters == parameter_types@.len() <==> r is Ok,
            r is Ok ==> final(self)@ == (ContextM {
                functions: old(self)@.functions.push(
                    FunctionM {
                        name: function_name@,
                        return_type,
                        param_types: parameter_types@,
                        blocks: empty_blocks(num_blocks as nat),
                    },
                ),
                block: 0,
            }),
            r is Err ==> final(self)@ == old(self)@ && r->Err_0 == BuildError::StructuralBuildError,
    {
        if num_parameters != parameter_types.len() {
            return Err(BuildError::StructuralBuildError);
        }
        let blocks = empty_block_vec(num_blocks);
        self.functions.push(
            Function { name: function_name, return_type, param_types: parameter_types, blocks },
        );
        self.block = 0;
        proof {
            assert(functions_model(self.functions@) =~= functions_model(
                old(self).functions@,
            ).push(self.functions@.last()@));
        }
        Ok(())
    }

    /// Moves the cursor to block `block_index` of the function added last.
    pub fn set_insert_point(&mut self, block_index: usize)
        requires
            old(self)@.functions.len() > 0,
            block_index < old(self)@.functions.last().blocks.len(),
        ensures
            final(self)@ == (ContextM { block: block_index as nat, ..old(self)@ }),
            final(self)@.has_cursor(),
    {
        self.block = block_index;
    }

    fn take_function(&mut self) -> (r: Function)
        requires
            old(self).functions.len() > 0,
        ensures
            r@ == old(self)@.functions.last(),
            final(self).functions@ == old(self).functions@.drop_last(),
            final(self).block == old(self).block,
    {
        let f = self.functions.pop();
        match f {
            Some(f) => f,
            None => {
                proof {
                    assert(false);
                }
                Function {
                    name: Vec::new(),
                    return_type: Type::Void,
                    param_types: Vec::new(),
                    blocks: Vec::new(),
                }
            },
        }
    }

    /// Appends a statement to the current block.
    pub fn add_expression(&mut self, expression: Expr)
        requires
            old(self)@.has_cursor(),
        ensures
            final(self)@ == old(self)@.with_current_block(
                BlockM {
                    statements: old(self)@.current_block().statements.push(expression@),
                    ..old(self)@.current_block()
                },
            ),
    {
        let mut f = self.take_function();
        let b = self.block;
        let mut blk = f.blocks.remove(b);
        let ghost s0 = blk.statements@;
        blk.statements.push(expression);
        proof {
            assert(blk.statements@.subrange(0, s0.len() as int) =~= s0);
        }
        f.blocks.insert(b, blk);
        self.functions.push(f);
        proof {
            let ob = old(self)@.current_block();
            assert(blocks_model(f.blocks@) =~= old(self)@.functions.last().blocks.update(
                b as int,
                BlockM { statements: ob.statements.push(expression@), ..ob },
            ));
            assert(functions_model(self.functions@) =~= old(self)@.with_current_block(
                BlockM { statements: ob.statements.push(expression@), ..ob },
            ).functions);
        }
    }

    /// Sets the current block's terminator; a block takes only one.
    pub fn add_return(&mut self, expression: Expr) -> (r: Result<(), BuildError>)
        requires
            old(self)@.has_cursor(),
        ensures
            old(self)@.current_block().terminator is None <==> r is Ok,
            r is Ok ==> final(self)@ == old(self)@.with_current_block(
                BlockM { terminator: Some(expression@), ..old(self)@.current_block() },
            ),
            r is Err ==> final(self)@ == old(self)@ && r->Err_0 == BuildError::StructuralBuildError,
    {
        let n = self.functions.len();
        let b = self.block;
        if self.functions[n - 1].blocks[b].terminator.is_some() {
            return Err(BuildError::StructuralBuildError);
        }
        let mut f = self.take_function();
        let mut blk = f.blocks.remove(b);
        blk.terminator = Some(expression);
        f.blocks.insert(b, blk);
        self.functions.push(f);
        proof {
            let ob = old(self)@.current_block();
            assert(blocks_model(f.blocks@) =~= old(self)@.functions.last().blocks.update(
                b as int,
                BlockM { terminator: Some(expression@), ..ob },
            ));
            assert(functions_model(self.functions@) =~= old(self)@.with_current_block(
                BlockM { terminator: Some(expression@), ..ob },
            ).functions);
        }
        Ok(())
    }
}

} // verus!
