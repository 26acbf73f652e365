//! What the read paths hand back once the backend has answered: a failed
//! query reads as no rows and a count of zero.
use vstd::prelude::*;

verus! {

/// The fetched rows, or none where the query failed.
pub fn rows_or_empty<T>(fetched: Option<Vec<T>>) -> (r: Vec<T>)
    ensures
        r@ == match fetched {
            Some(v) => v@,
            None => Seq::<T>::empty(),
        },
{
    match fetched {
        Some(v) => v,
        None => Vec::new(),
    }
}

/// The first row, if there is one.
pub fn first_row<T>(rows: Vec<T>) -> (r: Option<T>)
    ensures
        rows@.len() == 0 ==> r is None,
        rows@.len() > 0 ==> r == Some(rows@[0]),
{
    let mut rows = rows;
    if rows.len() == 0 {
        None
    } else {
        Some(rows.remove(0))
    }
}

/// The row count that the backend returned, or zero where the query failed
/// or returned a negative number.
pub fn count_or_zero(fetched: Option<i64>) -> (r: usize)
    ensures
        r == match fetched {
            Some(n) => if n >= 0 { n as usize } else { 0usize },
            None => 0usize,
        },
{
    match fetched {
        Some(n) => if n >= 0 { n as usize } else { 0 },
        None => 0,
    }
}

} // verus!
