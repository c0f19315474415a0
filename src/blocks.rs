use vstd::prelude::*;
use tinywasm_types::BlockArgs;

verus! {

/// What kind of block a frame was entered by.
#[derive(Debug, Clone, Copy, PartialEq, Eq)]
pub enum BlockFrameType {
    Loop,
    If,
    Else,
    Block,
}

/// A block entered during execution.
#[derive(Debug)]
pub struct BlockFrame {
    /// Position of the instruction pointer when the block was entered.
    pub instr_ptr: usize,
    /// Position of the value stack pointer when the block was entered.
    pub stack_ptr: usize,
    pub args: BlockArgs,
    pub ty: BlockFrameType,
}

/// The stack of entered blocks; the last frame is the innermost.
#[derive(Debug)]
pub struct Blocks(pub Vec<BlockFrame>);

impl Blocks {
    pub fn new() -> (r: Blocks)
        ensures
            r.0@ == Seq::<BlockFrame>::empty(),
    {
        Blocks(Vec::new())
    }

    pub fn push(&mut self, block: BlockFrame)
        ensures
            final(self).0@ == old(self).0@.push(block),
    {
        self.0.push(block);
    }

    /// The block `index` frames below the top; 0 is the top.
    pub fn get(&self, index: usize) -> (r: Option<&BlockFrame>)
        ensures
            index < self.0@.len() ==> r == Some(&self.0@[self.0@.len() - 1 - index]),
            index >= self.0@.len() ==> r is None,
    {
        if index < self.0.len() {
            Some(&self.0[self.0.len() - index - 1])
        } else {
            None
        }
    }

    pub fn pop(&mut self) -> (r: Option<BlockFrame>)
        ensures
            old(self).0@.len() > 0 ==> r == Some(old(self).0@.last()) && final(self).0@ == old(self).0@.drop_last(),
            old(self).0@.len() == 0 ==> r is None && final(self).0@ == old(self).0@,
    {
        self.0.pop()
    }

    /// Removes every block above the one at position `index` from the bottom.
    pub fn trim(&mut self, index: usize)
        requires
            index < usize::MAX,
        ensures
            index + 1 <= old(self).0@.len() ==> final(self).0@ == old(self).0@.subrange(0, index + 1),
            index + 1 > old(self).0@.len() ==> final(self).0@ == old(self).0@,
    {
        self.0.truncate(index + 1);
    }
}

} // verus!
