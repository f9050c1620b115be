//! S-expressions as the reader hands them to the type checker.
//!
//! ```text
//! $NUM  := [1-9][0-9]*
//! $BOOL := true | false
//! $EXP  := $NUM | ( $STR $EXPS )
//! $EXPS := $EXP | $EXP $EXPS
//! $LIST := '() | '( $EXPS )
//! $STR is some string
//! ```
use vstd::prelude::*;

verus! {

#[derive(Debug)]
pub enum Expr {
    Num(i64),
    Bool(bool),
    ID(String),
    Apply(Vec<Expr>),
    List(Vec<Expr>),
    Tuple(Vec<Expr>),
}

/// Every identifier in `e` has at least one character.
pub open spec fn ids_nonempty(e: Expr) -> bool
    decreases e,
{
    match e {
        Expr::ID(s) => s@.len() > 0,
        Expr::Apply(v) => forall|i: int| 0 <= i < v@.len() ==> ids_nonempty(#[trigger] v@[i]),
        Expr::List(v) => forall|i: int| 0 <= i < v@.len() ==> ids_nonempty(#[trigger] v@[i]),
        Expr::Tuple(v) => forall|i: int| 0 <= i < v@.len() ==> ids_nonempty(#[trigger] v@[i]),
        _ => true,
    }
}

/// The identity on bytes.
pub fn test(a: u8) -> (r: u8)
    ensures
        r == a,
{
    a
}

} // verus!
