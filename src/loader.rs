//! Turns a textual node definition into a node:
//!
//! ```text
//! NodeID("0x1"): IndexNode(name: "walk", frames: [a.png, b.png], is_loop: true, index: IndexID(256))
//! ```
//!
//! The optional prefix binds an identity; the tag picks the variant; each
//! variant reads its own fields. Frame paths are handed back as the
//! dependencies that must be resolved before the node runs.

use vstd::prelude::*;
use crate::error::{LoadError, LoadFailure};
use crate::lexer::{Tok, TokKind, lex, spans_ok, lemma_lex_spans, tokenize, chars_of};
use crate::parser::{FieldValue, kind_at, is_atom, fields_at, fields_at_exec};
use crate::node_id::{NodeId, literal_value, name_id};
use crate::state::{Attribute, AttrValue};
use crate::nodes::{AnimationNode, IndexNode, FpsNode, ScaleNode, MatchNode, ScriptNode, ScriptOp, Operand};

verus! {

/// What `ron::from_str::<String>` decodes a text to, if anything.
pub uninterp spec fn ron_string_of(text: Seq<char>) -> Option<Seq<char>>;

/// Relies on `ron::from_str::<String>`: decodes one quoted RON string,
/// escapes included, and fails on any other text.
#[verifier::external_body]
fn decode_string(text: &str) -> (r: Option<String>)
    ensures
        match r {
            Some(v) => ron_string_of(text@) == Some(v@),
            None => ron_string_of(text@).is_none(),
        },
{
    match ron::from_str::<String>(text) {
        Ok(v) => Some(v),
        Err(_) => None,
    }
}

pub open spec fn tok_text(s: Seq<char>, k: Tok) -> Seq<char> {
    s.subrange(k.start as int, k.end as int)
}

/// The text an atom stands for: a word as written, a string decoded.
pub open spec fn atom_text(s: Seq<char>, t: Seq<Tok>, p: nat) -> Option<Seq<char>> {
    if kind_at(t, p, TokKind::Word) {
        Some(tok_text(s, t[p as int]))
    } else if kind_at(t, p, TokKind::Str) {
        ron_string_of(tok_text(s, t[p as int]))
    } else {
        None
    }
}

/// The last field named `name`: a field given twice keeps its later value.
pub open spec fn find_field(s: Seq<char>, t: Seq<Tok>, fs: Seq<(usize, FieldValue)>, name: Seq<char>) -> Option<FieldValue>
    decreases fs.len(),
{
    if fs.len() == 0 {
        None
    } else if (fs.last().0 as nat) < t.len() && tok_text(s, t[fs.last().0 as int]) == name {
        Some(fs.last().1)
    } else {
        find_field(s, t, fs.drop_last(), name)
    }
}

/// The node variants that definitions can name.
#[derive(Debug, Clone, Copy, PartialEq, Eq, Structural)]
pub enum NodeKind {
    Index,
    Fps,
    Scale,
    Match,
    Script,
}

/// Whether a variant has a field of this name.
pub open spec fn field_allowed(k: NodeKind, x: Seq<char>) -> bool {
    match k {
        NodeKind::Index => x == "name"@ || x == "frames"@ || x == "is_loop"@ || x == "index"@,
        NodeKind::Fps => x == "name"@ || x == "fps"@ || x == "then"@,
        NodeKind::Scale => x == "name"@ || x == "scale"@ || x == "next"@,
        NodeKind::Match => x == "name"@ || x == "check"@ || x == "default"@ || x == "branches"@,
        NodeKind::Script => x == "name"@ || x == "op"@ || x == "left"@ || x == "right"@ || x == "target"@ || x == "next"@,
    }
}

/// Whether a field is one the variant has.
pub open spec fn field_ok(s: Seq<char>, t: Seq<Tok>, f: (usize, FieldValue), k: NodeKind) -> bool {
    (f.0 as nat) < t.len() && field_allowed(k, tok_text(s, t[f.0 as int]))
}

/// Every field is one the variant has.
pub open spec fn fields_allowed(s: Seq<char>, t: Seq<Tok>, fs: Seq<(usize, FieldValue)>, k: NodeKind) -> bool {
    forall|i: int| 0 <= i < fs.len() ==> field_ok(s, t, #[trigger] fs[i], k)
}

/// The token of a value that is a lone atom.
pub open spec fn single_atom(v: FieldValue) -> Option<nat> {
    match v {
        FieldValue::Single(term) => if term.end == term.head + 1 {
            Some(term.head as nat)
        } else {
            None
        },
        _ => None,
    }
}

/// The text of a value that is a lone atom.
pub open spec fn text_of_value(s: Seq<char>, t: Seq<Tok>, v: FieldValue) -> Option<Seq<char>> {
    match single_atom(v) {
        Some(p) => atom_text(s, t, p),
        None => None,
    }
}

pub open spec fn bool_of_value(s: Seq<char>, t: Seq<Tok>, v: FieldValue) -> Option<bool> {
    match text_of_value(s, t, v) {
        Some(x) => if x == "true"@ {
            Some(true)
        } else if x == "false"@ {
            Some(false)
        } else {
            None
        },
        None => None,
    }
}

/// A numeric literal that fits in 64 bits.
pub open spec fn u64_of_text(x: Seq<char>) -> Option<u64> {
    match literal_value(x) {
        Some(n) => if n <= u64::MAX {
            Some(n as u64)
        } else {
            None
        },
        None => None,
    }
}

/// An identity written as a literal, or else as a name.
pub open spec fn id_of_text(x: Seq<char>) -> NodeId {
    match u64_of_text(x) {
        Some(n) => NodeId(n),
        None => NodeId(name_id(x)),
    }
}

/// A call of one argument, `Word ( Atom )`: its name and the argument's token.
pub open spec fn call_of(s: Seq<char>, t: Seq<Tok>, v: FieldValue) -> Option<(Seq<char>, nat)> {
    match v {
        FieldValue::Single(term) => if term.end == term.head + 4 && kind_at(t, term.head as nat, TokKind::Word) {
            Some((tok_text(s, t[term.head as int]), (term.head + 2) as nat))
        } else {
            None
        },
        _ => None,
    }
}

/// An identity: an atom, or `NodeID(atom)`.
pub open spec fn id_of_value(s: Seq<char>, t: Seq<Tok>, v: FieldValue) -> Option<NodeId> {
    match text_of_value(s, t, v) {
        Some(x) => Some(id_of_text(x)),
        None => match call_of(s, t, v) {
            Some((h, a)) => if h == "NodeID"@ {
                match atom_text(s, t, a) {
                    Some(x) => Some(id_of_text(x)),
                    None => None,
                }
            } else {
                None
            },
            None => None,
        },
    }
}

pub open spec fn attr_named(x: Seq<char>) -> Option<Attribute> {
    if x == "Delta"@ {
        Some(Attribute::Delta)
    } else if x == "Frames"@ {
        Some(Attribute::Frames)
    } else if x == "LastFPS"@ {
        Some(Attribute::LastFps)
    } else if x == "TimeThisFrame"@ {
        Some(Attribute::TimeThisFrame)
    } else {
        None
    }
}

/// An attribute: one of the built-in names, `IndexID(n)` for `n < 65536`,
/// or `Custom(n)`.
pub open spec fn attr_of_value(s: Seq<char>, t: Seq<Tok>, v: FieldValue) -> Option<Attribute> {
    match single_atom(v) {
        Some(p) => if kind_at(t, p, TokKind::Word) {
            attr_named(tok_text(s, t[p as int]))
        } else {
            None
        },
        None => match call_of(s, t, v) {
            Some((h, a)) => match atom_text(s, t, a) {
                Some(x) => match u64_of_text(x) {
                    Some(n) => if h == "IndexID"@ && n <= 65535 {
                        Some(Attribute::IndexId(n as u16))
                    } else if h == "Custom"@ {
                        Some(Attribute::Custom(n))
                    } else {
                        None
                    },
                    None => None,
                },
                None => None,
            },
            None => None,
        },
    }
}

/// The texts of a list of atoms whose items continue at `p`.
pub open spec fn list_texts(s: Seq<char>, t: Seq<Tok>, p: nat) -> Option<Seq<Seq<char>>>
    decreases t.len() - p,
{
    if kind_at(t, p, TokKind::RBracket) {
        Some(Seq::empty())
    } else if is_atom(t, p) && !kind_at(t, p + 1, TokKind::Open) {
        match atom_text(s, t, p) {
            None => None,
            Some(x) => if kind_at(t, p + 1, TokKind::Comma) {
                match list_texts(s, t, p + 2) {
                    Some(rest) => Some(seq![x] + rest),
                    None => None,
                }
            } else if kind_at(t, p + 1, TokKind::RBracket) {
                Some(seq![x])
            } else {
                None
            },
        }
    } else {
        None
    }
}

pub open spec fn texts_of_value(s: Seq<char>, t: Seq<Tok>, v: FieldValue) -> Option<Seq<Seq<char>>> {
    match v {
        FieldValue::List(open, _) => list_texts(s, t, (open + 1) as nat),
        _ => None,
    }
}

/// The value a branch compares with: `true`, `false` or a numeric literal.
pub open spec fn branch_value(x: Seq<char>) -> Option<AttrValue> {
    if x == "true"@ {
        Some(AttrValue::Bool(true))
    } else if x == "false"@ {
        Some(AttrValue::Bool(false))
    } else {
        match u64_of_text(x) {
            Some(n) => Some(AttrValue::UInt(n)),
            None => None,
        }
    }
}

/// The branches of a list whose items, each `Case ( atom , atom )`,
/// continue at `p`.
pub open spec fn list_branches(s: Seq<char>, t: Seq<Tok>, p: nat) -> Option<Seq<(AttrValue, NodeId)>>
    decreases t.len() - p,
{
    if kind_at(t, p, TokKind::RBracket) {
        Some(Seq::empty())
    } else if kind_at(t, p, TokKind::Word) && tok_text(s, t[p as int]) == "Case"@ && kind_at(t, p + 1, TokKind::Open)
        && kind_at(t, p + 3, TokKind::Comma) && kind_at(t, p + 5, TokKind::Close) {
        match (atom_text(s, t, p + 2), atom_text(s, t, p + 4)) {
            (Some(a), Some(b)) => match branch_value(a) {
                None => None,
                Some(v) => if kind_at(t, p + 6, TokKind::Comma) {
                    match list_branches(s, t, p + 7) {
                        Some(rest) => Some(seq![(v, id_of_text(b))] + rest),
                        None => None,
                    }
                } else if kind_at(t, p + 6, TokKind::RBracket) {
                    Some(seq![(v, id_of_text(b))])
                } else {
                    None
                },
            },
            _ => None,
        }
    } else {
        None
    }
}

pub open spec fn branches_of_value(s: Seq<char>, t: Seq<Tok>, v: FieldValue) -> Option<Seq<(AttrValue, NodeId)>> {
    match v {
        FieldValue::List(open, _) => list_branches(s, t, (open + 1) as nat),
        _ => None,
    }
}

/// A script operation by name.
pub open spec fn op_named(x: Seq<char>) -> Option<ScriptOp> {
    if x == "Add"@ {
        Some(ScriptOp::Add)
    } else if x == "Sub"@ {
        Some(ScriptOp::Sub)
    } else if x == "Mul"@ {
        Some(ScriptOp::Mul)
    } else if x == "Eq"@ {
        Some(ScriptOp::Eq)
    } else if x == "Lt"@ {
        Some(ScriptOp::Lt)
    } else {
        None
    }
}

pub open spec fn op_of_value(s: Seq<char>, t: Seq<Tok>, v: FieldValue) -> Option<ScriptOp> {
    match text_of_value(s, t, v) {
        Some(x) => op_named(x),
        None => None,
    }
}

/// An operand: a numeric literal, else an attribute.
pub open spec fn operand_of_value(s: Seq<char>, t: Seq<Tok>, v: FieldValue) -> Option<Operand> {
    match text_of_value(s, t, v) {
        Some(x) => match u64_of_text(x) {
            Some(n) => Some(Operand::Const(n)),
            None => match attr_of_value(s, t, v) {
                Some(a) => Some(Operand::Attr(a)),
                None => None,
            },
        },
        None => match attr_of_value(s, t, v) {
            Some(a) => Some(Operand::Attr(a)),
            None => None,
        },
    }
}

// ---------------------------------------------------------------------
// Executable readers
// ---------------------------------------------------------------------

/// Whether `x` reads `lit`.
fn text_is(x: &str, lit: &str) -> (r: bool)
    ensures
        r == (x@ == lit@),
{
    let n = x.unicode_len();
    if n != lit.unicode_len() {
        return false;
    }
    let mut i: usize = 0;
    while i < n
        invariant
            n == x@.len(),
            n == lit@.len(),
            i <= n,
            x@.subrange(0, i as int) == lit@.subrange(0, i as int),
        decreases n - i,
    {
        if x.get_char(i) != lit.get_char(i) {
            assert(x@[i as int] != lit@[i as int]);
            return false;
        }
        assert(x@.subrange(0, i + 1) =~= x@.subrange(0, i as int).push(x@[i as int]));
        assert(lit@.subrange(0, i + 1) =~= lit@.subrange(0, i as int).push(lit@[i as int]));
        i = i + 1;
    }
    assert(x@ =~= x@.subrange(0, n as int));
    assert(lit@ =~= lit@.subrange(0, n as int));
    true
}

/// The tokens of a text, with the text as characters.
struct Source<'a> {
    text: &'a str,
    chars: Vec<char>,
    toks: Vec<Tok>,
}

impl<'a> Source<'a> {
    spec fn wf(&self) -> bool {
        &&& self.chars@ == self.text@
        &&& lex(self.text@, 0) == Some(self.toks@)
        &&& spans_ok(self.text@, self.toks@)
        &&& self.toks@.len() < usize::MAX
    }

    /// The text of token `p`.
    fn tok_string(&self, p: usize) -> (r: String)
        requires
            self.wf(),
            p < self.toks@.len(),
        ensures
            r@ == tok_text(self.text@, self.toks@[p as int]),
    {
        let k = self.toks[p];
        let mut out = String::new();
        let mut i: usize = k.start;
        while i < k.end
            invariant
                self.wf(),
                k == self.toks@[p as int],
                k.start <= i <= k.end,
                k.end <= self.chars@.len(),
                out@ == self.text@.subrange(k.start as int, i as int),
            decreases k.end - i,
        {
            out.push(self.chars[i]);
            i = i + 1;
            assert(out@ =~= self.text@.subrange(k.start as int, i as int));
        }
        out
    }

    /// Whether token `p` reads `lit`.
    fn tok_is(&self, p: usize, lit: &str) -> (r: bool)
        requires
            self.wf(),
            p < self.toks@.len(),
        ensures
            r == (tok_text(self.text@, self.toks@[p as int]) == lit@),
    {
        let k = self.toks[p];
        text_is(self.text.substring_char(k.start, k.end), lit)
    }

    fn atom_text(&self, p: usize) -> (r: Option<String>)
        requires
            self.wf(),
        ensures
            match r {
                Some(x) => atom_text(self.text@, self.toks@, p as nat) == Some(x@),
                None => atom_text(self.text@, self.toks@, p as nat).is_none(),
            },
    {
        if p >= self.toks.len() {
            return None;
        }
        let k = self.toks[p];
        match k.kind {
            TokKind::Word => Some(self.tok_string(p)),
            TokKind::Str => decode_string(self.text.substring_char(k.start, k.end)),
            _ => None,
        }
    }

    fn find_field(&self, fs: &Vec<(usize, FieldValue)>, name: &str) -> (r: Option<FieldValue>)
        requires
            self.wf(),
        ensures
            r == find_field(self.text@, self.toks@, fs@, name@),
    {
        let mut i: usize = fs.len();
        assert(fs@.subrange(0, i as int) =~= fs@);
        while i > 0
            invariant
                self.wf(),
                i <= fs@.len(),
                find_field(self.text@, self.toks@, fs@, name@) == find_field(self.text@, self.toks@, fs@.subrange(0, i as int), name@),
            decreases i,
        {
            let ghost pre = fs@.subrange(0, i as int);
            assert(pre.drop_last() =~= fs@.subrange(0, i - 1));
            assert(pre.last() == fs@[i - 1]);
            let p = fs[i - 1].0;
            if p < self.toks.len() && self.tok_is(p, name) {
                return Some(fs[i - 1].1);
            }
            i = i - 1;
        }
        None
    }

    fn field_allowed(&self, p: usize, k: NodeKind) -> (r: bool)
        requires
            self.wf(),
            p < self.toks@.len(),
        ensures
            r == field_allowed(k, tok_text(self.text@, self.toks@[p as int])),
    {
        match k {
            NodeKind::Index => self.tok_is(p, "name") || self.tok_is(p, "frames") || self.tok_is(p, "is_loop")
                || self.tok_is(p, "index"),
            NodeKind::Fps => self.tok_is(p, "name") || self.tok_is(p, "fps") || self.tok_is(p, "then"),
            NodeKind::Scale => self.tok_is(p, "name") || self.tok_is(p, "scale") || self.tok_is(p, "next"),
            NodeKind::Match => self.tok_is(p, "name") || self.tok_is(p, "check") || self.tok_is(p, "default")
                || self.tok_is(p, "branches"),
            NodeKind::Script => self.tok_is(p, "name") || self.tok_is(p, "op") || self.tok_is(p, "left")
                || self.tok_is(p, "right") || self.tok_is(p, "target") || self.tok_is(p, "next"),
        }
    }

    fn fields_allowed(&self, fs: &Vec<(usize, FieldValue)>, k: NodeKind) -> (r: bool)
        requires
            self.wf(),
        ensures
            r == fields_allowed(self.text@, self.toks@, fs@, k),
    {
        let mut i: usize = 0;
        while i < fs.len()
            invariant
                self.wf(),
                i <= fs@.len(),
                forall|j: int| 0 <= j < i ==> field_ok(self.text@, self.toks@, #[trigger] fs@[j], k),
            decreases fs.len() - i,
        {
            let p = fs[i].0;
            if p >= self.toks.len() || !self.field_allowed(p, k) {
                assert(!field_ok(self.text@, self.toks@, fs@[i as int], k));
                return false;
            }
            assert(field_ok(self.text@, self.toks@, fs@[i as int], k));
            i = i + 1;
        }
        true
    }

    fn text_of_value(&self, v: FieldValue) -> (r: Option<String>)
        requires
            self.wf(),
        ensures
            match r {
                Some(x) => text_of_value(self.text@, self.toks@, v) == Some(x@),
                None => text_of_value(self.text@, self.toks@, v).is_none(),
            },
    {
        match v {
            FieldValue::Single(term) => {
                if term.end as u128 == term.head as u128 + 1 {
                    self.atom_text(term.head)
                } else {
                    None
                }
            },
            _ => None,
        }
    }

    fn bool_of_value(&self, v: FieldValue) -> (r: Option<bool>)
        requires
            self.wf(),
        ensures
            r == bool_of_value(self.text@, self.toks@, v),
    {
        match self.text_of_value(v) {
            Some(x) => {
                if text_is(x.as_str(), "true") {
                    Some(true)
                } else if text_is(x.as_str(), "false") {
                    Some(false)
                } else {
                    None
                }
            },
            None => None,
        }
    }

    fn call_of(&self, v: FieldValue) -> (r: Option<usize>)
        requires
            self.wf(),
        ensures
            match r {
                Some(h) => call_of(self.text@, self.toks@, v) matches Some((_, a)) && a == h + 2
                    && (h as nat) < self.toks@.len()
                    && call_of(self.text@, self.toks@, v).unwrap().0 == tok_text(self.text@, self.toks@[h as int]),
                None => call_of(self.text@, self.toks@, v).is_none(),
            },
    {
        match v {
            FieldValue::Single(term) => {
                if term.end as u128 == term.head as u128 + 4 && term.head < self.toks.len()
                    && self.toks[term.head].kind == TokKind::Word {
                    Some(term.head)
                } else {
                    None
                }
            },
            _ => None,
        }
    }

    fn id_of_value(&self, v: FieldValue) -> (r: Option<NodeId>)
        requires
            self.wf(),
        ensures
            r == id_of_value(self.text@, self.toks@, v),
    {
        match self.text_of_value(v) {
            Some(x) => Some(node_id_of_text(x.as_str())),
            None => match self.call_of(v) {
                Some(h) => {
                    if self.tok_is(h, "NodeID") {
                        match self.atom_text(h + 2) {
                            Some(x) => Some(node_id_of_text(x.as_str())),
                            None => None,
                        }
                    } else {
                        None
                    }
                },
                None => None,
            },
        }
    }

    fn attr_of_value(&self, v: FieldValue) -> (r: Option<Attribute>)
        requires
            self.wf(),
        ensures
            r == attr_of_value(self.text@, self.toks@, v),
    {
        match v {
            FieldValue::Single(term) => {
                if term.end as u128 == term.head as u128 + 1 {
                    if term.head < self.toks.len() && self.toks[term.head].kind == TokKind::Word {
                        let x = self.tok_string(term.head);
                        return attr_named_exec(x.as_str());
                    } else {
                        return None;
                    }
                }
            },
            _ => {},
        }
        match self.call_of(v) {
            Some(h) => match self.atom_text(h + 2) {
                Some(x) => match u64_of_text_exec(x.as_str()) {
                    Some(n) => {
                        if self.tok_is(h, "IndexID") && n <= 65535 {
                            Some(Attribute::IndexId(n as u16))
                        } else if self.tok_is(h, "Custom") {
                            Some(Attribute::Custom(n))
                        } else {
                            None
                        }
                    },
                    None => None,
                },
                None => None,
            },
            None => None,
        }
    }

    fn list_texts(&self, p: usize) -> (r: Option<Vec<String>>)
        requires
            self.wf(),
            p <= self.toks@.len(),
        ensures
            match r {
                Some(v) => list_texts(self.text@, self.toks@, p as nat) == Some(v@.map_values(|x: String| x@)),
                None => list_texts(self.text@, self.toks@, p as nat).is_none(),
            },
        decreases self.toks@.len() - p,
    {
        let t = &self.toks;
        if p < t.len() && t[p].kind == TokKind::RBracket {
            let v: Vec<String> = Vec::new();
            assert(v@.map_values(|x: String| x@) =~= Seq::<Seq<char>>::empty());
            return Some(v);
        }
        let atom = p < t.len() && (t[p].kind == TokKind::Word || t[p].kind == TokKind::Str);
        let opens = p + 1 < t.len() && t[p + 1].kind == TokKind::Open;
        if !atom || opens {
            return None;
        }
        let x = match self.atom_text(p) {
            Some(x) => x,
            None => return None,
        };
        if p + 1 < t.len() && t[p + 1].kind == TokKind::Comma {
            match self.list_texts(p + 2) {
                Some(rest) => {
                    let mut rest = rest;
                    let ghost rv = rest@;
                    let ghost xv = x@;
                    rest.insert(0, x);
                    assert(rest@.map_values(|y: String| y@) =~= seq![xv] + rv.map_values(|y: String| y@));
                    Some(rest)
                },
                None => None,
            }
        } else if p + 1 < t.len() && t[p + 1].kind == TokKind::RBracket {
            let ghost xv = x@;
            let mut v: Vec<String> = Vec::new();
            v.push(x);
            assert(v@.map_values(|y: String| y@) =~= seq![xv]);
            Some(v)
        } else {
            None
        }
    }

    fn branch_value(x: &str) -> (r: Option<AttrValue>)
        ensures
            r == branch_value(x@),
    {
        if text_is(x, "true") {
            Some(AttrValue::Bool(true))
        } else if text_is(x, "false") {
            Some(AttrValue::Bool(false))
        } else {
            match u64_of_text_exec(x) {
                Some(n) => Some(AttrValue::UInt(n)),
                None => None,
            }
        }
    }

    fn list_branches(&self, p: usize) -> (r: Option<Vec<(AttrValue, NodeId)>>)
        requires
            self.wf(),
            p <= self.toks@.len(),
        ensures
            match r {
                Some(v) => list_branches(self.text@, self.toks@, p as nat) == Some(v@),
                None => list_branches(self.text@, self.toks@, p as nat).is_none(),
            },
        decreases self.toks@.len() - p,
    {
        let t = &self.toks;
        if p < t.len() && t[p].kind == TokKind::RBracket {
            return Some(Vec::new());
        }
        let shape = p < t.len() && t.len() - p > 5 && t[p].kind == TokKind::Word && t[p + 1].kind == TokKind::Open
            && t[p + 3].kind == TokKind::Comma && t[p + 5].kind == TokKind::Close;
        if !shape || !self.tok_is(p, "Case") {
            return None;
        }
        let (a, b) = match (self.atom_text(p + 2), self.atom_text(p + 4)) {
            (Some(a), Some(b)) => (a, b),
            _ => return None,
        };
        let v = match Source::branch_value(a.as_str()) {
            Some(v) => v,
            None => return None,
        };
        let item = (v, node_id_of_text(b.as_str()));
        if p + 6 < t.len() && t[p + 6].kind == TokKind::Comma {
            match self.list_branches(p + 7) {
                Some(rest) => {
                    let mut rest = rest;
                    let ghost rv = rest@;
                    rest.insert(0, item);
                    assert(rest@ =~= seq![item] + rv);
                    Some(rest)
                },
                None => None,
            }
        } else if p + 6 < t.len() && t[p + 6].kind == TokKind::RBracket {
            let mut out: Vec<(AttrValue, NodeId)> = Vec::new();
            out.push(item);
            assert(out@ =~= seq![item]);
            Some(out)
        } else {
            None
        }
    }

    fn branches_of_value(&self, v: FieldValue) -> (r: Option<Vec<(AttrValue, NodeId)>>)
        requires
            self.wf(),
        ensures
            match r {
                Some(x) => branches_of_value(self.text@, self.toks@, v) == Some(x@),
                None => branches_of_value(self.text@, self.toks@, v).is_none(),
            },
    {
        match v {
            FieldValue::List(open, _) => {
                if open < self.toks.len() {
                    self.list_branches(open + 1)
                } else {
                    None
                }
            },
            _ => None,
        }
    }

    fn op_of_value(&self, v: FieldValue) -> (r: Option<ScriptOp>)
        requires
            self.wf(),
        ensures
            r == op_of_value(self.text@, self.toks@, v),
    {
        match self.text_of_value(v) {
            Some(x) => {
                let x = x.as_str();
                if text_is(x, "Add") {
                    Some(ScriptOp::Add)
                } else if text_is(x, "Sub") {
                    Some(ScriptOp::Sub)
                } else if text_is(x, "Mul") {
                    Some(ScriptOp::Mul)
                } else if text_is(x, "Eq") {
                    Some(ScriptOp::Eq)
                } else if text_is(x, "Lt") {
                    Some(ScriptOp::Lt)
                } else {
                    None
                }
            },
            None => None,
        }
    }

    fn operand_of_value(&self, v: FieldValue) -> (r: Option<Operand>)
        requires
            self.wf(),
        ensures
            r == operand_of_value(self.text@, self.toks@, v),
    {
        if let Some(x) = self.text_of_value(v) {
            if let Some(n) = u64_of_text_exec(x.as_str()) {
                return Some(Operand::Const(n));
            }
        }
        match self.attr_of_value(v) {
            Some(a) => Some(Operand::Attr(a)),
            None => None,
        }
    }

    fn texts_of_value(&self, v: FieldValue) -> (r: Option<Vec<String>>)
        requires
            self.wf(),
        ensures
            match r {
                Some(x) => texts_of_value(self.text@, self.toks@, v) == Some(x@.map_values(|y: String| y@)),
                None => texts_of_value(self.text@, self.toks@, v).is_none(),
            },
    {
        match v {
            FieldValue::List(open, _) => {
                if open < self.toks.len() {
                    self.list_texts(open + 1)
                } else {
                    None
                }
            },
            _ => None,
        }
    }
}

fn attr_named_exec(x: &str) -> (r: Option<Attribute>)
    ensures
        r == attr_named(x@),
{
    if text_is(x, "Delta") {
        Some(Attribute::Delta)
    } else if text_is(x, "Frames") {
        Some(Attribute::Frames)
    } else if text_is(x, "LastFPS") {
        Some(Attribute::LastFps)
    } else if text_is(x, "TimeThisFrame") {
        Some(Attribute::TimeThisFrame)
    } else {
        None
    }
}

fn u64_of_text_exec(x: &str) -> (r: Option<u64>)
    ensures
        r == u64_of_text(x@),
{
    match NodeId::from_literal(x) {
        Ok(id) => Some(id.0),
        Err(_) => None,
    }
}

/// The identity a text names: its value where it is a numeric literal,
/// else the identity of the name.
pub fn node_id_of_text(x: &str) -> (r: NodeId)
    ensures
        r == id_of_text(x@),
{
    match NodeId::from_literal(x) {
        Ok(id) => id,
        Err(_) => NodeId::of_name(x),
    }
}

// ---------------------------------------------------------------------
// Definitions
// ---------------------------------------------------------------------

/// A loaded node as the contracts see it.
pub enum LoadedNode {
    Index { id: Option<NodeId>, name: Seq<char>, frames: Seq<Seq<char>>, is_loop: bool, index: Attribute },
    Fps { id: Option<NodeId>, name: Seq<char>, fps: u32, next: NodeId },
    Scale { id: Option<NodeId>, name: Seq<char>, scale: Attribute, next: NodeId },
    Match { id: Option<NodeId>, name: Seq<char>, check: Attribute, branches: Seq<(AttrValue, NodeId)>, default: NodeId },
    Script { id: Option<NodeId>, name: Seq<char>, op: ScriptOp, left: Operand, right: Operand, target: Attribute, next: NodeId },
}

/// The asset paths a loaded node depends on.
pub open spec fn loaded_frames(l: LoadedNode) -> Seq<Seq<char>> {
    match l {
        LoadedNode::Index { frames, .. } => frames,
        _ => Seq::empty(),
    }
}

/// Whether `n` is the node that `l` describes.
pub open spec fn is_loaded(n: AnimationNode, l: LoadedNode) -> bool {
    match (n, l) {
        (AnimationNode::Index(x), LoadedNode::Index { id, name, frames, is_loop, index }) => {
            &&& x.spec_id() == id
            &&& x.spec_name() == name
            &&& x.spec_frames() == frames
            &&& x.spec_is_loop() == is_loop
            &&& x.spec_index() == index
        },
        (AnimationNode::Fps(x), LoadedNode::Fps { id, name, fps, next }) => {
            &&& x.spec_id() == id
            &&& x.spec_name() == name
            &&& x.spec_fps() == fps
            &&& x.spec_next() == next
        },
        (AnimationNode::Scale(x), LoadedNode::Scale { id, name, scale, next }) => {
            &&& x.spec_id() == id
            &&& x.spec_name() == name
            &&& x.spec_scale() == scale
            &&& x.spec_next() == next
        },
        (AnimationNode::Match(x), LoadedNode::Match { id, name, check, branches, default }) => {
            &&& x.spec_id() == id
            &&& x.spec_name() == name
            &&& x.spec_check() == check
            &&& x.spec_branches() == branches
            &&& x.spec_default() == default
        },
        (AnimationNode::Script(x), LoadedNode::Script { id, name, op, left, right, target, next }) => {
            &&& x.spec_id() == id
            &&& x.spec_name() == name
            &&& x.spec_expr() == (op, left, right)
            &&& x.spec_target() == target
            &&& x.spec_next() == next
        },
        _ => false,
    }
}

/// Whether the definition opens with `NodeID ( atom ) :`.
pub open spec fn has_prefix(s: Seq<char>, t: Seq<Tok>) -> bool {
    &&& kind_at(t, 0, TokKind::Word)
    &&& tok_text(s, t[0]) == "NodeID"@
    &&& kind_at(t, 1, TokKind::Open)
    &&& is_atom(t, 2)
    &&& kind_at(t, 3, TokKind::Close)
    &&& kind_at(t, 4, TokKind::Colon)
}

pub open spec fn index_spec(s: Seq<char>, t: Seq<Tok>, fs: Seq<(usize, FieldValue)>, id: Option<NodeId>) -> Result<LoadedNode, LoadFailure> {
    if !fields_allowed(s, t, fs, NodeKind::Index) {
        Err(LoadFailure::Parse)
    } else {
        match find_field(s, t, fs, "frames"@) {
            None => Err(LoadFailure::Missing("frames"@)),
            Some(fv) => match find_field(s, t, fs, "name"@) {
                None => Err(LoadFailure::Missing("name"@)),
                Some(nv) => {
                    let is_loop = match find_field(s, t, fs, "is_loop"@) {
                        None => Some(false),
                        Some(v) => bool_of_value(s, t, v),
                    };
                    let index = match find_field(s, t, fs, "index"@) {
                        None => Some(Attribute::IndexId(0)),
                        Some(v) => attr_of_value(s, t, v),
                    };
                    match (texts_of_value(s, t, fv), text_of_value(s, t, nv), is_loop, index) {
                        (Some(frames), Some(name), Some(l), Some(ix)) => if frames.len() == 0 {
                            Err(LoadFailure::NoFrames)
                        } else {
                            Ok(LoadedNode::Index { id, name, frames, is_loop: l, index: ix })
                        },
                        _ => Err(LoadFailure::Parse),
                    }
                },
            },
        }
    }
}

pub open spec fn fps_spec(s: Seq<char>, t: Seq<Tok>, fs: Seq<(usize, FieldValue)>, id: Option<NodeId>) -> Result<LoadedNode, LoadFailure> {
    if !fields_allowed(s, t, fs, NodeKind::Fps) {
        Err(LoadFailure::Parse)
    } else {
        match find_field(s, t, fs, "name"@) {
            None => Err(LoadFailure::Missing("name"@)),
            Some(nv) => match find_field(s, t, fs, "fps"@) {
                None => Err(LoadFailure::Missing("fps"@)),
                Some(fv) => match find_field(s, t, fs, "then"@) {
                    None => Err(LoadFailure::Missing("then"@)),
                    Some(tv) => {
                        let fps = match text_of_value(s, t, fv) {
                            Some(x) => u64_of_text(x),
                            None => None,
                        };
                        match (text_of_value(s, t, nv), fps, id_of_value(s, t, tv)) {
                            (Some(name), Some(f), Some(next)) => if f <= u32::MAX {
                                Ok(LoadedNode::Fps { id, name, fps: f as u32, next })
                            } else {
                                Err(LoadFailure::Parse)
                            },
                            _ => Err(LoadFailure::Parse),
                        }
                    },
                },
            },
        }
    }
}

pub open spec fn scale_spec(s: Seq<char>, t: Seq<Tok>, fs: Seq<(usize, FieldValue)>, id: Option<NodeId>) -> Result<LoadedNode, LoadFailure> {
    if !fields_allowed(s, t, fs, NodeKind::Scale) {
        Err(LoadFailure::Parse)
    } else {
        match find_field(s, t, fs, "scale"@) {
            None => Err(LoadFailure::Missing("scale"@)),
            Some(sv) => match find_field(s, t, fs, "name"@) {
                None => Err(LoadFailure::Missing("name"@)),
                Some(nv) => match find_field(s, t, fs, "next"@) {
                    None => Err(LoadFailure::Missing("next"@)),
                    Some(xv) => match (attr_of_value(s, t, sv), text_of_value(s, t, nv), id_of_value(s, t, xv)) {
                        (Some(scale), Some(name), Some(next)) => Ok(LoadedNode::Scale { id, name, scale, next }),
                        _ => Err(LoadFailure::Parse),
                    },
                },
            },
        }
    }
}

pub open spec fn match_spec(s: Seq<char>, t: Seq<Tok>, fs: Seq<(usize, FieldValue)>, id: Option<NodeId>) -> Result<LoadedNode, LoadFailure> {
    if !fields_allowed(s, t, fs, NodeKind::Match) {
        Err(LoadFailure::Parse)
    } else {
        match find_field(s, t, fs, "name"@) {
            None => Err(LoadFailure::Missing("name"@)),
            Some(nv) => match find_field(s, t, fs, "check"@) {
                None => Err(LoadFailure::Missing("check"@)),
                Some(cv) => match find_field(s, t, fs, "default"@) {
                    None => Err(LoadFailure::Missing("default"@)),
                    Some(dv) => {
                        let branches = match find_field(s, t, fs, "branches"@) {
                            None => Some(Seq::empty()),
                            Some(bv) => branches_of_value(s, t, bv),
                        };
                        match (text_of_value(s, t, nv), attr_of_value(s, t, cv), id_of_value(s, t, dv), branches) {
                            (Some(name), Some(check), Some(default), Some(b)) => Ok(LoadedNode::Match { id, name, check, branches: b, default }),
                            _ => Err(LoadFailure::Parse),
                        }
                    },
                },
            },
        }
    }
}

pub open spec fn script_spec(s: Seq<char>, t: Seq<Tok>, fs: Seq<(usize, FieldValue)>, id: Option<NodeId>) -> Result<LoadedNode, LoadFailure> {
    if !fields_allowed(s, t, fs, NodeKind::Script) {
        Err(LoadFailure::Parse)
    } else {
        match find_field(s, t, fs, "name"@) {
            None => Err(LoadFailure::Missing("name"@)),
            Some(nv) => match find_field(s, t, fs, "op"@) {
                None => Err(LoadFailure::Missing("op"@)),
                Some(ov) => match find_field(s, t, fs, "left"@) {
                    None => Err(LoadFailure::Missing("left"@)),
                    Some(lv) => match find_field(s, t, fs, "right"@) {
                        None => Err(LoadFailure::Missing("right"@)),
                        Some(rv) => match find_field(s, t, fs, "target"@) {
                            None => Err(LoadFailure::Missing("target"@)),
                            Some(tv) => match find_field(s, t, fs, "next"@) {
                                None => Err(LoadFailure::Missing("next"@)),
                                Some(xv) => match (text_of_value(s, t, nv), op_of_value(s, t, ov), operand_of_value(s, t, lv),
                                    operand_of_value(s, t, rv), attr_of_value(s, t, tv), id_of_value(s, t, xv)) {
                                    (Some(name), Some(op), Some(left), Some(right), Some(target), Some(next)) =>
                                        Ok(LoadedNode::Script { id, name, op, left, right, target, next }),
                                    _ => Err(LoadFailure::Parse),
                                },
                            },
                        },
                    },
                },
            },
        }
    }
}

/// What a definition text loads to.
pub open spec fn load_spec(s: Seq<char>) -> Result<LoadedNode, LoadFailure> {
    if s.len() >= usize::MAX {
        Err(LoadFailure::Parse)
    } else {
        match lex(s, 0) {
            None => Err(LoadFailure::Parse),
            Some(t) => {
                let start: nat = if has_prefix(s, t) { 5 } else { 0 };
                if !(kind_at(t, start, TokKind::Word) && kind_at(t, start + 1, TokKind::Open)) {
                    Err(LoadFailure::Parse)
                } else {
                    match fields_at(t, start + 2) {
                        None => Err(LoadFailure::Parse),
                        Some((fs, e)) => if e != t.len() {
                            Err(LoadFailure::Parse)
                        } else {
                            let id: Option<Option<NodeId>> = if has_prefix(s, t) {
                                match atom_text(s, t, 2) {
                                    Some(x) => Some(Some(id_of_text(x))),
                                    None => None,
                                }
                            } else {
                                Some(None)
                            };
                            let variant = tok_text(s, t[start as int]);
                            match id {
                                None => Err(LoadFailure::Parse),
                                Some(id) => if variant == "IndexNode"@ {
                                    index_spec(s, t, fs, id)
                                } else if variant == "FPSNode"@ {
                                    fps_spec(s, t, fs, id)
                                } else if variant == "ScaleNode"@ {
                                    scale_spec(s, t, fs, id)
                                } else if variant == "MatchNode"@ {
                                    match_spec(s, t, fs, id)
                                } else if variant == "ScriptNode"@ {
                                    script_spec(s, t, fs, id)
                                } else {
                                    Err(LoadFailure::Unknown(variant))
                                },
                            }
                        },
                    }
                }
            },
        }
    }
}

impl<'a> Source<'a> {
    fn load_index(&self, fs: &Vec<(usize, FieldValue)>, id: Option<NodeId>) -> (r: Result<(AnimationNode, Vec<String>), LoadError>)
        requires
            self.wf(),
        ensures
            match (r, index_spec(self.text@, self.toks@, fs@, id)) {
                (Ok((n, frames)), Ok(l)) => is_loaded(n, l) && n.runnable() && frames@.map_values(|x: String| x@) == loaded_frames(l),
                (Err(e), Err(f)) => e@ == f,
                _ => false,
            },
    {
        if !self.fields_allowed(fs, NodeKind::Index) {
            return Err(LoadError::ParseError);
        }
        let fv = match self.find_field(fs, "frames") {
            Some(v) => v,
            None => return Err(LoadError::MissingField("frames".to_owned())),
        };
        let nv = match self.find_field(fs, "name") {
            Some(v) => v,
            None => return Err(LoadError::MissingField("name".to_owned())),
        };
        let is_loop = match self.find_field(fs, "is_loop") {
            None => Some(false),
            Some(v) => self.bool_of_value(v),
        };
        let index = match self.find_field(fs, "index") {
            None => Some(Attribute::IndexId(0)),
            Some(v) => self.attr_of_value(v),
        };
        match (self.texts_of_value(fv), self.text_of_value(nv), is_loop, index) {
            (Some(frames), Some(name), Some(l), Some(ix)) => {
                if frames.len() == 0 {
                    return Err(LoadError::NoFrames);
                }
                let paths = copy_paths(&frames);
                let mut node = IndexNode::new_with_index(name.as_str(), frames, l, ix);
                if let Some(i) = id {
                    node.set_id(i);
                }
                Ok((AnimationNode::Index(node), paths))
            },
            _ => Err(LoadError::ParseError),
        }
    }

    fn load_fps(&self, fs: &Vec<(usize, FieldValue)>, id: Option<NodeId>) -> (r: Result<AnimationNode, LoadError>)
        requires
            self.wf(),
        ensures
            match (r, fps_spec(self.text@, self.toks@, fs@, id)) {
                (Ok(n), Ok(l)) => is_loaded(n, l) && n.runnable(),
                (Err(e), Err(f)) => e@ == f,
                _ => false,
            },
    {
        if !self.fields_allowed(fs, NodeKind::Fps) {
            return Err(LoadError::ParseError);
        }
        let nv = match self.find_field(fs, "name") {
            Some(v) => v,
            None => return Err(LoadError::MissingField("name".to_owned())),
        };
        let fv = match self.find_field(fs, "fps") {
            Some(v) => v,
            None => return Err(LoadError::MissingField("fps".to_owned())),
        };
        let tv = match self.find_field(fs, "then") {
            Some(v) => v,
            None => return Err(LoadError::MissingField("then".to_owned())),
        };
        let fps = match self.text_of_value(fv) {
            Some(x) => u64_of_text_exec(x.as_str()),
            None => None,
        };
        match (self.text_of_value(nv), fps, self.id_of_value(tv)) {
            (Some(name), Some(f), Some(next)) => {
                if f <= u32::MAX as u64 {
                    let mut node = FpsNode::new(name.as_str(), f as u32, next);
                    if let Some(i) = id {
                        node.set_id(i);
                    }
                    Ok(AnimationNode::Fps(node))
                } else {
                    Err(LoadError::ParseError)
                }
            },
            _ => Err(LoadError::ParseError),
        }
    }

    fn load_scale(&self, fs: &Vec<(usize, FieldValue)>, id: Option<NodeId>) -> (r: Result<AnimationNode, LoadError>)
        requires
            self.wf(),
        ensures
            match (r, scale_spec(self.text@, self.toks@, fs@, id)) {
                (Ok(n), Ok(l)) => is_loaded(n, l) && n.runnable(),
                (Err(e), Err(f)) => e@ == f,
                _ => false,
            },
    {
        if !self.fields_allowed(fs, NodeKind::Scale) {
            return Err(LoadError::ParseError);
        }
        let sv = match self.find_field(fs, "scale") {
            Some(v) => v,
            None => return Err(LoadError::MissingField("scale".to_owned())),
        };
        let nv = match self.find_field(fs, "name") {
            Some(v) => v,
            None => return Err(LoadError::MissingField("name".to_owned())),
        };
        let xv = match self.find_field(fs, "next") {
            Some(v) => v,
            None => return Err(LoadError::MissingField("next".to_owned())),
        };
        match (self.attr_of_value(sv), self.text_of_value(nv), self.id_of_value(xv)) {
            (Some(scale), Some(name), Some(next)) => {
                let mut node = ScaleNode::new(name.as_str(), scale, next);
                if let Some(i) = id {
                    node.set_id(i);
                }
                Ok(AnimationNode::Scale(node))
            },
            _ => Err(LoadError::ParseError),
        }
    }

    fn load_script(&self, fs: &Vec<(usize, FieldValue)>, id: Option<NodeId>) -> (r: Result<AnimationNode, LoadError>)
        requires
            self.wf(),
        ensures
            match (r, script_spec(self.text@, self.toks@, fs@, id)) {
                (Ok(n), Ok(l)) => is_loaded(n, l) && n.runnable(),
                (Err(e), Err(f)) => e@ == f,
                _ => false,
            },
    {
        if !self.fields_allowed(fs, NodeKind::Script) {
            return Err(LoadError::ParseError);
        }
        let nv = match self.find_field(fs, "name") {
            Some(v) => v,
            None => return Err(LoadError::MissingField("name".to_owned())),
        };
        let ov = match self.find_field(fs, "op") {
            Some(v) => v,
            None => return Err(LoadError::MissingField("op".to_owned())),
        };
        let lv = match self.find_field(fs, "left") {
            Some(v) => v,
            None => return Err(LoadError::MissingField("left".to_owned())),
        };
        let rv = match self.find_field(fs, "right") {
            Some(v) => v,
            None => return Err(LoadError::MissingField("right".to_owned())),
        };
        let tv = match self.find_field(fs, "target") {
            Some(v) => v,
            None => return Err(LoadError::MissingField("target".to_owned())),
        };
        let xv = match self.find_field(fs, "next") {
            Some(v) => v,
            None => return Err(LoadError::MissingField("next".to_owned())),
        };
        match (self.text_of_value(nv), self.op_of_value(ov), self.operand_of_value(lv), self.operand_of_value(rv),
            self.attr_of_value(tv), self.id_of_value(xv)) {
            (Some(name), Some(op), Some(left), Some(right), Some(target), Some(next)) => {
                let mut node = ScriptNode::new(name.as_str(), op, left, right, target, next);
                if let Some(i) = id {
                    node.set_id(i);
                }
                Ok(AnimationNode::Script(node))
            },
            _ => Err(LoadError::ParseError),
        }
    }

    fn load_match(&self, fs: &Vec<(usize, FieldValue)>, id: Option<NodeId>) -> (r: Result<AnimationNode, LoadError>)
        requires
            self.wf(),
        ensures
            match (r, match_spec(self.text@, self.toks@, fs@, id)) {
                (Ok(n), Ok(l)) => is_loaded(n, l) && n.runnable(),
                (Err(e), Err(f)) => e@ == f,
                _ => false,
            },
    {
        if !self.fields_allowed(fs, NodeKind::Match) {
            return Err(LoadError::ParseError);
        }
        let nv = match self.find_field(fs, "name") {
            Some(v) => v,
            None => return Err(LoadError::MissingField("name".to_owned())),
        };
        let cv = match self.find_field(fs, "check") {
            Some(v) => v,
            None => return Err(LoadError::MissingField("check".to_owned())),
        };
        let dv = match self.find_field(fs, "default") {
            Some(v) => v,
            None => return Err(LoadError::MissingField("default".to_owned())),
        };
        let branches = match self.find_field(fs, "branches") {
            None => Some(Vec::new()),
            Some(bv) => self.branches_of_value(bv),
        };
        match (self.text_of_value(nv), self.attr_of_value(cv), self.id_of_value(dv), branches) {
            (Some(name), Some(check), Some(default), Some(b)) => {
                let mut node = MatchNode::new(name.as_str(), check, b, default);
                if let Some(i) = id {
                    node.set_id(i);
                }
                Ok(AnimationNode::Match(node))
            },
            _ => Err(LoadError::ParseError),
        }
    }
}

/// Loads one node from its definition. The frame paths of an index node
/// are appended to `dependencies`; on failure nothing is appended.
pub fn load(text: &str, dependencies: &mut Vec<String>) -> (r: Result<AnimationNode, LoadError>)
    ensures
        match (r, load_spec(text@)) {
            (Ok(n), Ok(l)) => {
                &&& is_loaded(n, l)
                &&& n.runnable()
                &&& final(dependencies)@.map_values(|x: String| x@) == old(dependencies)@.map_values(|x: String| x@) + loaded_frames(l)
            },
            (Err(e), Err(f)) => e@ == f && final(dependencies)@ == old(dependencies)@,
            _ => false,
        },
{
    let n = text.unicode_len();
    if n == usize::MAX {
        return Err(LoadError::ParseError);
    }
    let toks = match tokenize(text) {
        Some(t) => t,
        None => return Err(LoadError::ParseError),
    };
    proof {
        lemma_lex_spans(text@, 0);
    }
    let src = Source { text, chars: chars_of(text), toks };
    let ghost s = text@;
    let ghost t = src.toks@;
    let prefix = src.toks.len() > 4 && src.toks[0].kind == TokKind::Word && src.tok_is(0, "NodeID")
        && src.toks[1].kind == TokKind::Open
        && (src.toks[2].kind == TokKind::Word || src.toks[2].kind == TokKind::Str)
        && src.toks[3].kind == TokKind::Close && src.toks[4].kind == TokKind::Colon;
    assert(prefix == has_prefix(s, t));
    let start: usize = if prefix { 5 } else { 0 };
    if !(start + 1 < src.toks.len() && src.toks[start].kind == TokKind::Word && src.toks[start + 1].kind == TokKind::Open) {
        return Err(LoadError::ParseError);
    }
    let (fs, e) = match fields_at_exec(&src.toks, start + 2) {
        Some(x) => x,
        None => return Err(LoadError::ParseError),
    };
    if e != src.toks.len() {
        return Err(LoadError::ParseError);
    }
    let id: Option<NodeId> = if prefix {
        match src.atom_text(2) {
            Some(x) => Some(node_id_of_text(x.as_str())),
            None => return Err(LoadError::ParseError),
        }
    } else {
        None
    };
    if src.tok_is(start, "IndexNode") {
        match src.load_index(&fs, id) {
            Ok((node, paths)) => {
                let mut paths = paths;
                let ghost d0 = dependencies@;
                let ghost pv = paths@;
                dependencies.append(&mut paths);
                assert(dependencies@.map_values(|x: String| x@) =~= d0.map_values(|x: String| x@) + pv.map_values(|x: String| x@));
                Ok(node)
            },
            Err(e) => Err(e),
        }
    } else if src.tok_is(start, "FPSNode") {
        src.load_fps(&fs, id)
    } else if src.tok_is(start, "ScaleNode") {
        src.load_scale(&fs, id)
    } else if src.tok_is(start, "MatchNode") {
        src.load_match(&fs, id)
    } else if src.tok_is(start, "ScriptNode") {
        src.load_script(&fs, id)
    } else {
        Err(LoadError::UnknownNode(src.tok_string(start)))
    }
}

fn copy_paths(v: &Vec<String>) -> (r: Vec<String>)
    ensures
        r@.map_values(|x: String| x@) == v@.map_values(|x: String| x@),
{
    let mut out: Vec<String> = Vec::new();
    let mut i: usize = 0;
    while i < v.len()
        invariant
            i <= v@.len(),
            out@.len() == i,
            forall|j: int| 0 <= j < i ==> (#[trigger] out@[j])@ == v@[j]@,
        decreases v.len() - i,
    {
        out.push(v[i].clone());
        i = i + 1;
    }
    assert(out@.map_values(|x: String| x@) =~= v@.map_values(|x: String| x@));
    out
}

/// The loader of scale nodes alone.
pub struct ScaleNodeLoader;

impl ScaleNodeLoader {
    /// Loads a scale node from its definition; a definition of another
    /// variant is refused as a parse error.
    pub fn load(&self, data: &str) -> (r: Result<AnimationNode, LoadError>)
        ensures
            match (r, load_spec(data@)) {
                (Ok(n), Ok(l)) => is_loaded(n, l) && l is Scale && n.runnable(),
                (Err(e), Ok(l)) => !(l is Scale) && e == LoadError::ParseError,
                (Err(e), Err(f)) => e@ == f,
                _ => false,
            },
    {
        let mut deps: Vec<String> = Vec::new();
        match load(data, &mut deps) {
            Ok(AnimationNode::Scale(n)) => Ok(AnimationNode::Scale(n)),
            Ok(_) => Err(LoadError::ParseError),
            Err(e) => Err(e),
        }
    }

    /// The variant tags this loader reads.
    pub fn can_load(&self) -> (r: Vec<String>)
        ensures
            r@.len() == 1,
            r@[0]@ == "ScaleNode"@,
    {
        let mut v: Vec<String> = Vec::new();
        v.push("ScaleNode".to_owned());
        v
    }
}

} // verus!
