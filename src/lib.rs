//! Singly linked containers with different ownership designs, and two
//! in-place sorts.
//!
//! - [`int_stack`]: a stack of `i32` whose nodes own their successors.
//! - [`stack`]: the same design, generic over the element type.
//! - [`arena_stack`]: a stack whose nodes sit in an arena, linked by index.
//! - [`arena_queue`]: a queue with O(1) push at the tail and pop at the
//!   head, its nodes in an arena of reusable slots, linked by index.
//! - [`nested`]: a list nested one level per element, with both-end access.
//! - [`order`]: the order in which these hand their elements back.
//! - [`sorting`]: bubble sort and merge sort on `i32` slices.
pub mod arena_queue;
pub mod arena_stack;
pub mod int_stack;
pub mod nested;
pub mod order;
pub mod sorting;
pub mod stack;
