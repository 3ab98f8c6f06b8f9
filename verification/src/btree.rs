//! The layout of a leaf node of a B-tree that holds rows: a header, then
//! cells of a key and a record each. These are the places of its parts,
//! counted in bytes from wherever the node starts.

use crate::layout::{PAGE_SIZE, ROW_SIZE};
use vstd::prelude::*;

verus! {

/// The kinds of node.
#[derive(Debug, Clone, Copy, PartialEq, Eq, Structural)]
pub enum Node {
    Leaf,
    Internal,
}

// What every node starts with.
pub const NODE_TYPE_SIZE: usize = 1;

pub const NODE_TYPE_OFFSET: usize = 0;

pub const IS_ROOT_SIZE: usize = 1;

pub const IS_ROOT_OFFSET: usize = NODE_TYPE_SIZE;

pub const PARENT_POINTER_SIZE: usize = 4;

pub const PARENT_POINTER_OFFSET: usize = IS_ROOT_OFFSET + IS_ROOT_SIZE;

pub const COMMON_NODE_HEADER_SIZE: usize = NODE_TYPE_SIZE + IS_ROOT_SIZE + PARENT_POINTER_SIZE;

// What the header of a leaf has beyond that.
pub const LEAF_NODE_NUM_CELLS_SIZE: usize = 4;

pub const LEAF_NODE_NUM_CELLS_OFFSET: usize = COMMON_NODE_HEADER_SIZE;

pub const LEAF_NODE_HEADER_SIZE: usize = COMMON_NODE_HEADER_SIZE + LEAF_NODE_NUM_CELLS_SIZE;

// The cells of a leaf.
pub const LEAF_NODE_KEY_SIZE: usize = 4;

pub const LEAF_NODE_KEY_OFFSET: usize = 0;

pub const LEAF_NODE_VALUE_SIZE: usize = ROW_SIZE;

pub const LEAF_NODE_VALUE_OFFSET: usize = LEAF_NODE_KEY_OFFSET + LEAF_NODE_KEY_SIZE;

/// The bytes of a cell: `LEAF_NODE_KEY_SIZE + LEAF_NODE_VALUE_SIZE`.
pub const LEAF_NODE_CELL_SIZE: usize = 295;

pub const LEAF_NODE_SPACE_FOR_CELLS: usize = PAGE_SIZE - LEAF_NODE_HEADER_SIZE;

/// The cells that a leaf has room for:
/// `LEAF_NODE_SPACE_FOR_CELLS / LEAF_NODE_CELL_SIZE`.
pub const LEAF_NODE_MAX_CELLS: usize = 13;

/// A leaf has room for as many cells as fit into its page after the header.
pub proof fn lemma_max_cells()
    ensures
        LEAF_NODE_CELL_SIZE == LEAF_NODE_KEY_SIZE + LEAF_NODE_VALUE_SIZE,
        LEAF_NODE_MAX_CELLS == LEAF_NODE_SPACE_FOR_CELLS / LEAF_NODE_CELL_SIZE,
{
}

/// Where cell `cell_num` of the leaf at `node` starts.
pub open spec fn cell_start(node: int, cell_num: int) -> int {
    node + LEAF_NODE_HEADER_SIZE + cell_num * LEAF_NODE_CELL_SIZE
}

/// Where the leaf at `node` keeps the number of its cells.
pub fn leaf_node_num_cells(node: usize) -> (place: usize)
    requires
        node + LEAF_NODE_NUM_CELLS_OFFSET <= usize::MAX,
    ensures
        place == node + LEAF_NODE_NUM_CELLS_OFFSET,
{
    node + LEAF_NODE_NUM_CELLS_OFFSET
}

/// Where cell `cell_num` of the leaf at `node` starts.
pub fn leaf_node_cell(node: usize, cell_num: usize) -> (place: usize)
    requires
        cell_start(node as int, cell_num as int) <= usize::MAX,
    ensures
        place == cell_start(node as int, cell_num as int),
{
    node + LEAF_NODE_HEADER_SIZE + cell_num * LEAF_NODE_CELL_SIZE
}

/// Where the key of cell `cell_num` of the leaf at `node` is: at the start
/// of the cell.
pub fn leaf_node_key(node: usize, cell_num: usize) -> (place: usize)
    requires
        cell_start(node as int, cell_num as int) <= usize::MAX,
    ensures
        place == cell_start(node as int, cell_num as int) + LEAF_NODE_KEY_OFFSET,
{
    leaf_node_cell(node, cell_num)
}

/// Where the record of cell `cell_num` of the leaf at `node` is: after the
/// key.
pub fn leaf_node_value(node: usize, cell_num: usize) -> (place: usize)
    requires
        cell_start(node as int, cell_num as int) + LEAF_NODE_VALUE_OFFSET <= usize::MAX,
    ensures
        place == cell_start(node as int, cell_num as int) + LEAF_NODE_VALUE_OFFSET,
{
    leaf_node_cell(node, cell_num) + LEAF_NODE_KEY_SIZE
}

} // verus!
