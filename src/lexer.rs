//! The tokens of the node-definition format: words, quoted strings and
//! the punctuation `( ) [ ] , :`, separated by optional whitespace.

use vstd::prelude::*;

verus! {

#[derive(Debug, Clone, Copy, PartialEq, Eq, Structural)]
pub enum TokKind {
    /// A run of characters that are neither whitespace, punctuation nor `"`.
    Word,
    /// A quoted string, quotes included; `\` escapes the next character.
    Str,
    Open,
    Close,
    LBracket,
    RBracket,
    Comma,
    Colon,
}

/// A token and the span `start..end` of characters it covers.
#[derive(Debug, Clone, Copy, PartialEq, Eq, Structural)]
pub struct Tok {
    pub kind: TokKind,
    pub start: usize,
    pub end: usize,
}

pub open spec fn is_space(c: char) -> bool {
    c == ' ' || c == '\n' || c == '\t' || c == '\r'
}

pub open spec fn punct_kind(c: char) -> Option<TokKind> {
    if c == '(' {
        Some(TokKind::Open)
    } else if c == ')' {
        Some(TokKind::Close)
    } else if c == '[' {
        Some(TokKind::LBracket)
    } else if c == ']' {
        Some(TokKind::RBracket)
    } else if c == ',' {
        Some(TokKind::Comma)
    } else if c == ':' {
        Some(TokKind::Colon)
    } else {
        None
    }
}

pub open spec fn is_word_char(c: char) -> bool {
    !is_space(c) && punct_kind(c).is_none() && c != '"'
}

/// Where the word that starts at or before `i` ends.
pub open spec fn word_end(s: Seq<char>, i: nat) -> nat
    decreases s.len() - i,
{
    if i < s.len() && is_word_char(s[i as int]) {
        word_end(s, i + 1)
    } else {
        i
    }
}

/// The position of the closing quote of a string whose body reaches `i`.
pub open spec fn string_end(s: Seq<char>, i: nat) -> Option<nat>
    decreases s.len() - i,
{
    if i >= s.len() {
        None
    } else if s[i as int] == '"' {
        Some(i)
    } else if s[i as int] == '\\' {
        if i + 1 >= s.len() {
            None
        } else {
            string_end(s, i + 2)
        }
    } else {
        string_end(s, i + 1)
    }
}

/// The tokens of `s` from position `i`, or `None` for an unterminated string.
pub open spec fn lex(s: Seq<char>, i: nat) -> Option<Seq<Tok>>
    decreases s.len() - i,
{
    if i >= s.len() {
        Some(Seq::empty())
    } else if is_space(s[i as int]) {
        lex(s, i + 1)
    } else if punct_kind(s[i as int]).is_some() {
        match lex(s, i + 1) {
            Some(rest) => Some(seq![Tok { kind: punct_kind(s[i as int]).unwrap(), start: i as usize, end: (i + 1) as usize }] + rest),
            None => None,
        }
    } else if s[i as int] == '"' {
        match string_end(s, i + 1) {
            None => None,
            Some(j) => if j < i || j >= s.len() {
                None
            } else {
                match lex(s, j + 1) {
                    Some(rest) => Some(seq![Tok { kind: TokKind::Str, start: i as usize, end: (j + 1) as usize }] + rest),
                    None => None,
                }
            },
        }
    } else {
        let j = word_end(s, i);
        if j <= i || j > s.len() {
            None
        } else {
            match lex(s, j) {
                Some(rest) => Some(seq![Tok { kind: TokKind::Word, start: i as usize, end: j as usize }] + rest),
                None => None,
            }
        }
    }
}

proof fn lemma_word_end(s: Seq<char>, i: nat)
    ensures
        i <= word_end(s, i),
        i < s.len() && is_word_char(s[i as int]) ==> i < word_end(s, i),
        word_end(s, i) <= s.len() || word_end(s, i) == i,
    decreases s.len() - i,
{
    if i < s.len() && is_word_char(s[i as int]) {
        lemma_word_end(s, i + 1);
    }
}

proof fn lemma_string_end(s: Seq<char>, i: nat)
    ensures
        string_end(s, i) matches Some(j) ==> i <= j < s.len(),
    decreases s.len() - i,
{
    if i < s.len() && s[i as int] != '"' {
        if s[i as int] == '\\' {
            if i + 1 < s.len() {
                lemma_string_end(s, i + 2);
            }
        } else {
            lemma_string_end(s, i + 1);
        }
    }
}

/// Every token covers a span of the text.
pub open spec fn spans_ok(s: Seq<char>, t: Seq<Tok>) -> bool {
    forall|k: int| 0 <= k < t.len() ==> (#[trigger] t[k]).start <= t[k].end <= s.len()
}

pub proof fn lemma_lex_spans(s: Seq<char>, i: nat)
    requires
        s.len() < usize::MAX,
    ensures
        lex(s, i) matches Some(t) ==> spans_ok(s, t) && t.len() + i <= s.len() || (i >= s.len() && t.len() == 0),
    decreases s.len() - i,
{
    if i < s.len() {
        if is_space(s[i as int]) {
            lemma_lex_spans(s, i + 1);
        } else if punct_kind(s[i as int]).is_some() {
            lemma_lex_spans(s, i + 1);
        } else if s[i as int] == '"' {
            if let Some(j) = string_end(s, i + 1) {
                if i <= j < s.len() {
                    lemma_lex_spans(s, j + 1);
                }
            }
        } else {
            let j = word_end(s, i);
            if i < j <= s.len() {
                lemma_lex_spans(s, j);
            }
        }
    }
}

fn punct_exec(c: char) -> (r: Option<TokKind>)
    ensures
        r == punct_kind(c),
{
    if c == '(' {
        Some(TokKind::Open)
    } else if c == ')' {
        Some(TokKind::Close)
    } else if c == '[' {
        Some(TokKind::LBracket)
    } else if c == ']' {
        Some(TokKind::RBracket)
    } else if c == ',' {
        Some(TokKind::Comma)
    } else if c == ':' {
        Some(TokKind::Colon)
    } else {
        None
    }
}

fn space_exec(c: char) -> (r: bool)
    ensures
        r == is_space(c),
{
    c == ' ' || c == '\n' || c == '\t' || c == '\r'
}

/// The characters of `text`, so that each is reached in constant time.
pub fn chars_of(text: &str) -> (r: Vec<char>)
    ensures
        r@ == text@,
{
    let n = text.unicode_len();
    let mut out: Vec<char> = Vec::new();
    let mut i: usize = 0;
    while i < n
        invariant
            n == text@.len(),
            i <= n,
            out@ == text@.subrange(0, i as int),
        decreases n - i,
    {
        out.push(text.get_char(i));
        i = i + 1;
        assert(out@ =~= text@.subrange(0, i as int));
    }
    assert(out@ =~= text@);
    out
}

/// Splits `text` into tokens; `None` where a string is not closed.
pub fn tokenize(text: &str) -> (r: Option<Vec<Tok>>)
    ensures
        match r {
            Some(v) => lex(text@, 0) == Some(v@),
            None => lex(text@, 0).is_none(),
        },
{
    let s = chars_of(text);
    let n = s.len();
    let ghost sv = s@;
    // tokens are gathered left to right; `lex` of the whole text is the
    // tokens found so far followed by `lex` from the current position
    let mut toks: Vec<Tok> = Vec::new();
    let mut i: usize = 0;
    while i < n
        invariant
            sv == s@,
            sv == text@,
            n == sv.len(),
            i <= n,
            lex(sv, 0) == match lex(sv, i as nat) {
                Some(rest) => Some(toks@ + rest),
                None => None::<Seq<Tok>>,
            },
        decreases n - i,
    {
        let c = s[i];
        if space_exec(c) {
            i = i + 1;
        } else if let Some(k) = punct_exec(c) {
            let ghost old_toks = toks@;
            toks.push(Tok { kind: k, start: i, end: i + 1 });
            proof {
                match lex(sv, (i + 1) as nat) {
                    Some(rest) => {
                        assert(old_toks + (seq![Tok { kind: k, start: i, end: (i + 1) as usize }] + rest) =~= toks@ + rest);
                    },
                    None => {},
                }
            }
            i = i + 1;
        } else if c == '"' {
            let mut j: usize = i + 1;
            let mut closed = false;
            while j < n
                invariant_except_break
                    !closed,
                invariant
                    sv == s@,
                    n == sv.len(),
                    i < j,
                    j <= n + 1,
                    string_end(sv, (i + 1) as nat) == string_end(sv, j as nat),
                ensures
                    closed ==> j < n && sv[j as int] == '"',
                    !closed ==> j >= n && string_end(sv, (i + 1) as nat).is_none(),
                    string_end(sv, (i + 1) as nat) == string_end(sv, j as nat),
                decreases n + 1 - j,
            {
                let d = s[j];
                if d == '"' {
                    closed = true;
                    break;
                } else if d == '\\' {
                    if j + 1 >= n {
                        j = n;
                        break;
                    }
                    j = j + 2;
                } else {
                    j = j + 1;
                }
            }
            if !closed {
                assert(lex(sv, i as nat).is_none());
                return None;
            }
            proof {
                lemma_string_end(sv, (i + 1) as nat);
            }
            let ghost old_toks = toks@;
            toks.push(Tok { kind: TokKind::Str, start: i, end: j + 1 });
            proof {
                match lex(sv, (j + 1) as nat) {
                    Some(rest) => {
                        assert(old_toks + (seq![Tok { kind: TokKind::Str, start: i, end: (j + 1) as usize }] + rest) =~= toks@ + rest);
                    },
                    None => {},
                }
            }
            i = j + 1;
        } else {
            let mut j: usize = i;
            while j < n && !space_exec(s[j]) && punct_exec(s[j]).is_none() && s[j] != '"'
                invariant
                    sv == s@,
                    n == sv.len(),
                    i <= j <= n,
                    word_end(sv, i as nat) == word_end(sv, j as nat),
                decreases n - j,
            {
                j = j + 1;
            }
            proof {
                lemma_word_end(sv, i as nat);
            }
            let ghost old_toks = toks@;
            toks.push(Tok { kind: TokKind::Word, start: i, end: j });
            proof {
                match lex(sv, j as nat) {
                    Some(rest) => {
                        assert(old_toks + (seq![Tok { kind: TokKind::Word, start: i, end: j }] + rest) =~= toks@ + rest);
                    },
                    None => {},
                }
            }
            i = j;
        }
    }
    assert(toks@ + Seq::<Tok>::empty() =~= toks@);
    Some(toks)
}

} // verus!
