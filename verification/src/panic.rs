//! Reporting Rust panics to Varnish.
use vstd::prelude::*;

verus! {

/// The line number reported for a panic: the line of its location, or -1
/// when it has none or the line does not fit.
pub fn panic_line(line: Option<u32>) -> (r: i32)
    ensures
        match line {
            Some(l) => if l <= i32::MAX {
                r == l
            } else {
                r == -1
            },
            None => r == -1,
        },
{
    match line {
        Some(l) => if l <= 2147483647u32 {
            l as i32
        } else {
            -1
        },
        None => -1,
    }
}

} // verus!
