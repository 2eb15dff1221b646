//! The structure of a node definition over its tokens:
//!
//! ```text
//! Def    := [ "NodeID" "(" Atom ")" ":" ] Word "(" Fields ")"
//! Fields := ( Word ":" Value "," )* [ Word ":" Value ] ")"
//! Value  := Term | "[" ( Term "," )* [ Term ] "]"
//! Term   := Atom [ "(" ( Atom "," )* [ Atom ] ")" ]
//! Atom   := Word | Str
//! ```

use vstd::prelude::*;
use crate::lexer::{Tok, TokKind};

verus! {

/// A term: the tokens `head..end`; a call where `end > head + 1`, its
/// arguments at `head + 2`, `head + 4`, ... before `end - 1`.
#[derive(Debug, Clone, Copy, PartialEq, Eq, Structural)]
pub struct Term {
    pub head: usize,
    pub end: usize,
}

/// A field's value: one term, or a list whose tokens are `open..end`.
#[derive(Debug, Clone, Copy, PartialEq, Eq, Structural)]
pub enum FieldValue {
    Single(Term),
    List(usize, usize),
}

pub open spec fn kind_at(t: Seq<Tok>, p: nat, k: TokKind) -> bool {
    p < t.len() && t[p as int].kind == k
}

pub open spec fn is_atom(t: Seq<Tok>, p: nat) -> bool {
    kind_at(t, p, TokKind::Word) || kind_at(t, p, TokKind::Str)
}

/// Where the argument list that continues at `p` ends (after its `)`).
pub open spec fn args_end(t: Seq<Tok>, p: nat) -> Option<nat>
    decreases t.len() - p,
{
    if kind_at(t, p, TokKind::Close) {
        Some(p + 1)
    } else if is_atom(t, p) {
        if kind_at(t, p + 1, TokKind::Comma) {
            args_end(t, p + 2)
        } else if kind_at(t, p + 1, TokKind::Close) {
            Some(p + 2)
        } else {
            None
        }
    } else {
        None
    }
}

/// Where the term at `p` ends.
pub open spec fn term_end(t: Seq<Tok>, p: nat) -> Option<nat> {
    if !is_atom(t, p) {
        None
    } else if kind_at(t, p + 1, TokKind::Open) {
        args_end(t, p + 2)
    } else {
        Some(p + 1)
    }
}

/// Where the list items that continue at `p` end (after the `]`).
pub open spec fn items_end(t: Seq<Tok>, p: nat) -> Option<nat>
    decreases t.len() - p,
{
    if kind_at(t, p, TokKind::RBracket) {
        Some(p + 1)
    } else {
        match term_end(t, p) {
            None => None,
            Some(q) => if q <= p || q > t.len() {
                None
            } else if kind_at(t, q, TokKind::Comma) {
                items_end(t, q + 1)
            } else if kind_at(t, q, TokKind::RBracket) {
                Some(q + 1)
            } else {
                None
            },
        }
    }
}

/// The value at `p` and where it ends.
pub open spec fn value_at(t: Seq<Tok>, p: nat) -> Option<(FieldValue, nat)> {
    if kind_at(t, p, TokKind::LBracket) {
        match items_end(t, p + 1) {
            Some(q) => Some((FieldValue::List(p as usize, q as usize), q)),
            None => None,
        }
    } else {
        match term_end(t, p) {
            Some(q) => Some((FieldValue::Single(Term { head: p as usize, end: q as usize }), q)),
            None => None,
        }
    }
}

/// The fields that continue at `p` (each a name token and a value) and
/// where they end (after the `)`).
pub open spec fn fields_at(t: Seq<Tok>, p: nat) -> Option<(Seq<(usize, FieldValue)>, nat)>
    decreases t.len() - p,
{
    if kind_at(t, p, TokKind::Close) {
        Some((Seq::empty(), p + 1))
    } else if kind_at(t, p, TokKind::Word) && kind_at(t, p + 1, TokKind::Colon) {
        match value_at(t, p + 2) {
            None => None,
            Some((v, q)) => if q <= p || q > t.len() {
                None
            } else if kind_at(t, q, TokKind::Comma) {
                match fields_at(t, q + 1) {
                    Some((rest, e)) => Some((seq![(p as usize, v)] + rest, e)),
                    None => None,
                }
            } else if kind_at(t, q, TokKind::Close) {
                Some((seq![(p as usize, v)], q + 1))
            } else {
                None
            },
        }
    } else {
        None
    }
}

fn kind_at_exec(t: &Vec<Tok>, p: usize, k: TokKind) -> (r: bool)
    ensures
        r == kind_at(t@, p as nat, k),
{
    p < t.len() && t[p].kind == k
}

fn is_atom_exec(t: &Vec<Tok>, p: usize) -> (r: bool)
    ensures
        r == is_atom(t@, p as nat),
{
    kind_at_exec(t, p, TokKind::Word) || kind_at_exec(t, p, TokKind::Str)
}

fn args_end_exec(t: &Vec<Tok>, p: usize) -> (r: Option<usize>)
    requires
        t@.len() < usize::MAX,
        p <= t@.len() + 1,
    ensures
        match r {
            Some(q) => args_end(t@, p as nat) == Some(q as nat),
            None => args_end(t@, p as nat).is_none(),
        },
    decreases t@.len() + 1 - p,
{
    if kind_at_exec(t, p, TokKind::Close) {
        Some(p + 1)
    } else if is_atom_exec(t, p) {
        if kind_at_exec(t, p + 1, TokKind::Comma) {
            args_end_exec(t, p + 2)
        } else if kind_at_exec(t, p + 1, TokKind::Close) {
            Some(p + 2)
        } else {
            None
        }
    } else {
        None
    }
}

fn term_end_exec(t: &Vec<Tok>, p: usize) -> (r: Option<usize>)
    requires
        t@.len() < usize::MAX,
        p <= t@.len(),
    ensures
        match r {
            Some(q) => term_end(t@, p as nat) == Some(q as nat),
            None => term_end(t@, p as nat).is_none(),
        },
{
    if !is_atom_exec(t, p) {
        None
    } else if kind_at_exec(t, p + 1, TokKind::Open) {
        args_end_exec(t, p + 2)
    } else {
        Some(p + 1)
    }
}

fn items_end_exec(t: &Vec<Tok>, p: usize) -> (r: Option<usize>)
    requires
        t@.len() < usize::MAX,
        p <= t@.len(),
    ensures
        match r {
            Some(q) => items_end(t@, p as nat) == Some(q as nat),
            None => items_end(t@, p as nat).is_none(),
        },
    decreases t@.len() - p,
{
    if kind_at_exec(t, p, TokKind::RBracket) {
        Some(p + 1)
    } else {
        match term_end_exec(t, p) {
            None => None,
            Some(q) => {
                if q <= p || q > t.len() {
                    None
                } else if kind_at_exec(t, q, TokKind::Comma) {
                    items_end_exec(t, q + 1)
                } else if kind_at_exec(t, q, TokKind::RBracket) {
                    Some(q + 1)
                } else {
                    None
                }
            },
        }
    }
}

fn value_at_exec(t: &Vec<Tok>, p: usize) -> (r: Option<(FieldValue, usize)>)
    requires
        t@.len() < usize::MAX,
        p <= t@.len(),
    ensures
        match r {
            Some((v, q)) => value_at(t@, p as nat) == Some((v, q as nat)),
            None => value_at(t@, p as nat).is_none(),
        },
{
    if kind_at_exec(t, p, TokKind::LBracket) {
        match items_end_exec(t, p + 1) {
            Some(q) => Some((FieldValue::List(p, q), q)),
            None => None,
        }
    } else {
        match term_end_exec(t, p) {
            Some(q) => Some((FieldValue::Single(Term { head: p, end: q }), q)),
            None => None,
        }
    }
}

/// The fields from `p` on, and where they end.
pub fn fields_at_exec(t: &Vec<Tok>, p: usize) -> (r: Option<(Vec<(usize, FieldValue)>, usize)>)
    requires
        t@.len() < usize::MAX,
        p <= t@.len(),
    ensures
        match r {
            Some((fs, e)) => fields_at(t@, p as nat) == Some((fs@, e as nat)),
            None => fields_at(t@, p as nat).is_none(),
        },
    decreases t@.len() - p,
{
    if kind_at_exec(t, p, TokKind::Close) {
        Some((Vec::new(), p + 1))
    } else if kind_at_exec(t, p, TokKind::Word) && kind_at_exec(t, p + 1, TokKind::Colon) {
        match value_at_exec(t, p + 2) {
            None => None,
            Some((v, q)) => {
                if q <= p || q > t.len() {
                    None
                } else if kind_at_exec(t, q, TokKind::Comma) {
                    match fields_at_exec(t, q + 1) {
                        Some((rest, e)) => {
                            let mut out: Vec<(usize, FieldValue)> = Vec::new();
                            out.push((p, v));
                            let mut rest = rest;
                            let ghost rv = rest@;
                            out.append(&mut rest);
                            assert(out@ =~= seq![(p, v)] + rv);
                            Some((out, e))
                        },
                        None => None,
                    }
                } else if kind_at_exec(t, q, TokKind::Close) {
                    let mut out: Vec<(usize, FieldValue)> = Vec::new();
                    out.push((p, v));
                    assert(out@ =~= seq![(p, v)]);
                    Some((out, q + 1))
                } else {
                    None
                }
            },
        }
    } else {
        None
    }
}

} // verus!
