//! Verified cores of a family of small command-line text tools.
//!
//! Each module holds the decisions of one tool as functions from plain
//! values to plain values, with contracts over sequences of characters.
pub mod calr;
pub mod catr;
pub mod commr;
pub mod cutr;
pub mod decimal;
pub mod echor;
pub mod findr;
pub mod fortuner;
pub mod grepr;
pub mod headr;
pub mod input;
pub mod lsr;
pub mod order;
pub mod output;
pub mod owner;
pub mod pattern;
pub mod tailr;
pub mod text;
pub mod uniqr;
pub mod wcr;
