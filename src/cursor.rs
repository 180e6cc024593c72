use vstd::prelude::*;

use crate::lexer::{
    build_symbol_map, entry_views, symbol_entries, symbol_of, to_symbol, token_views, Symbol,
    Token,
};

verus! {

/// The symbol at token position `k`: `Eof` at or past the end.
pub open spec fn sym_at(tokens: Seq<(Seq<char>, u32)>, k: int) -> Symbol {
    if 0 <= k < tokens.len() {
        symbol_of(tokens[k].0)
    } else {
        Symbol::Eof
    }
}

/// The position after `p`: one further, but not past the end.
pub open spec fn next_pos(tokens: Seq<(Seq<char>, u32)>, p: int) -> int {
    if p < tokens.len() {
        p + 1
    } else {
        p
    }
}

/// The text at position `p`; past the end, that of the last token.
pub open spec fn text_at(tokens: Seq<(Seq<char>, u32)>, p: int) -> Seq<char> {
    if p < tokens.len() {
        tokens[p].0
    } else {
        tokens.last().0
    }
}

/// The line reported at position `p`: that of its token, past the end the
/// number of tokens.
pub open spec fn line_at(tokens: Seq<(Seq<char>, u32)>, p: int) -> u32 {
    if 0 <= p < tokens.len() {
        tokens[p].1
    } else {
        tokens.len() as u32
    }
}

/// The position after an optional `s` at `p`.
pub open spec fn skip_opt(tokens: Seq<(Seq<char>, u32)>, p: int, s: Symbol) -> int {
    if sym_at(tokens, p) == s {
        next_pos(tokens, p)
    } else {
        p
    }
}

/// First position at or after `k` whose symbol is `End` (or `Eof`).
pub open spec fn end_from(tokens: Seq<(Seq<char>, u32)>, k: int) -> int
    decreases tokens.len() - k,
{
    if k >= tokens.len() || sym_at(tokens, k) == Symbol::End {
        k
    } else {
        end_from(tokens, k + 1)
    }
}

/// `b` is `a` read further: the same tokens and loops, the position not
/// moved back.
pub open spec fn advanced(a: Input, b: Input) -> bool {
    &&& b.wf()
    &&& b.toks() == a.toks()
    &&& b.spec_loops() == a.spec_loops()
    &&& a.spec_pos() <= b.spec_pos()
    &&& b.spec_pos() <= b.toks().len()
}

/// A read position in the token stream of a scene text, with the symbol
/// under it and the positions where open `#while` loops start.
#[derive(Debug)]
pub struct Input {
    symbol_map: Vec<(String, Symbol)>,
    pos: usize,
    tokens: Vec<Token>,
    symbol: Symbol,
    loops: Vec<usize>,
}

impl Input {
    /// The tokens read.
    pub closed spec fn toks(&self) -> Seq<(Seq<char>, u32)> {
        token_views(self.tokens@)
    }

    pub closed spec fn spec_pos(&self) -> int {
        self.pos as int
    }

    pub closed spec fn spec_symbol(&self) -> Symbol {
        self.symbol
    }

    pub closed spec fn spec_loops(&self) -> Seq<usize> {
        self.loops@
    }

    /// The position is within the tokens (or just past them), the symbol is
    /// the one at the position once reading has started, and every loop
    /// start is a position that has been read.
    pub closed spec fn wf(&self) -> bool {
        &&& entry_views(self.symbol_map@) == symbol_entries()
        &&& self.tokens@.len() > 0
        &&& self.pos <= self.tokens@.len()
        &&& self.pos >= 1 ==> self.symbol == sym_at(self.toks(), self.pos as int)
        &&& self.pos == 0 ==> self.symbol == Symbol::Unset
        &&& forall|i: int|
            0 <= i < self.loops@.len() ==> 1 <= #[trigger] self.loops@[i] <= self.tokens@.len()
    }

    /// The position never passes the end of the tokens.
    pub proof fn lemma_in_range(&self)
        requires
            self.wf(),
        ensures
            0 <= self.spec_pos() <= self.toks().len(),
    {
    }

    /// Once reading has started, the symbol is the one at the position.
    pub proof fn lemma_symbol(&self)
        requires
            self.wf(),
            self.spec_pos() >= 1,
        ensures
            self.spec_symbol() == sym_at(self.toks(), self.spec_pos()),
            0 <= self.spec_pos() <= self.toks().len(),
    {
    }

    /// A cursor before the first token; `nextsym` moves it onto the first.
    pub fn new(tokens: Vec<Token>) -> (r: Input)
        requires
            tokens@.len() > 0,
        ensures
            r.wf(),
            r.toks() == token_views(tokens@),
            r.spec_pos() == 0,
            r.spec_symbol() == Symbol::Unset,
            r.spec_loops().len() == 0,
    {
        Input {
            symbol_map: build_symbol_map(),
            pos: 0,
            tokens,
            symbol: Symbol::Unset,
            loops: Vec::new(),
        }
    }

    pub fn pos(&self) -> (r: usize)
        ensures
            r == self.spec_pos(),
    {
        self.pos
    }

    pub fn symbol(&self) -> (r: Symbol)
        ensures
            r == self.spec_symbol(),
    {
        self.symbol
    }

    pub fn len(&self) -> (r: usize)
        ensures
            r == self.toks().len(),
    {
        self.tokens.len()
    }

    /// Whether every token has been read.
    pub fn at_end(&self) -> (r: bool)
        ensures
            r == (self.spec_pos() >= self.toks().len()),
    {
        self.pos >= self.tokens.len()
    }

    /// The line of the current token; past the end, the number of tokens.
    pub fn current_line(&self) -> (r: u32)
        ensures
            self.spec_pos() < self.toks().len() ==> r == self.toks()[self.spec_pos() as int].1,
            self.spec_pos() >= self.toks().len() ==> r == self.toks().len() as u32,
            r == line_at(self.toks(), self.spec_pos()),
    {
        if self.pos < self.tokens.len() {
            self.tokens[self.pos].line
        } else {
            self.tokens.len() as u32
        }
    }

    /// The text of the current token; past the end, that of the last one.
    pub fn current_text(&self) -> (r: &String)
        requires
            self.wf(),
        ensures
            self.spec_pos() < self.toks().len() ==> r@ == self.toks()[self.spec_pos() as int].0,
            self.spec_pos() >= self.toks().len() ==> r@ == self.toks().last().0,
            r@ == text_at(self.toks(), self.spec_pos()),
    {
        if self.pos < self.tokens.len() {
            &self.tokens[self.pos].text
        } else {
            &self.tokens[self.tokens.len() - 1].text
        }
    }

    /// Moves to position `p` and reads the symbol there.
    fn jump_to(&mut self, p: usize)
        requires
            old(self).wf(),
            1 <= p <= old(self).toks().len(),
        ensures
            final(self).wf(),
            final(self).spec_pos() <= final(self).toks().len(),
            final(self).spec_pos() == p,
            final(self).spec_symbol() == sym_at(old(self).toks(), p as int),
            final(self).toks() == old(self).toks(),
            final(self).spec_loops() == old(self).spec_loops(),
    {
        self.pos = p;
        if p < self.tokens.len() {
            self.symbol = to_symbol(&self.symbol_map, &self.tokens[p].text);
        } else {
            self.symbol = Symbol::Eof;
        }
    }

    /// Moves to the next token and reads its symbol (`Eof` past the end).
    pub fn nextsym(&mut self)
        requires
            old(self).wf(),
        ensures
            final(self).wf(),
            final(self).spec_pos() <= final(self).toks().len(),
            final(self).spec_pos() == if old(self).spec_pos() < old(self).toks().len() {
                old(self).spec_pos() + 1
            } else {
                old(self).spec_pos() as int
            },
            final(self).spec_symbol() == sym_at(old(self).toks(), final(self).spec_pos() as int),
            final(self).toks() == old(self).toks(),
            final(self).spec_loops() == old(self).spec_loops(),
    {
        let p = if self.pos < self.tokens.len() {
            self.pos + 1
        } else {
            self.pos
        };
        self.jump_to(p);
    }

    /// Reads past the current symbol if it is `s`.
    pub fn accept(&mut self, s: Symbol) -> (r: bool)
        requires
            old(self).wf(),
        ensures
            final(self).wf(),
            final(self).spec_pos() <= final(self).toks().len(),
            r == (old(self).spec_symbol() == s),
            r ==> final(self).spec_pos() == if old(self).spec_pos() < old(self).toks().len() {
                old(self).spec_pos() + 1
            } else {
                old(self).spec_pos() as int
            },
            r ==> final(self).spec_symbol() == sym_at(old(self).toks(), final(self).spec_pos() as int),
            !r ==> *final(self) == *old(self),
            r && s != Symbol::Eof ==> final(self).spec_pos() == old(self).spec_pos() + 1,
            r && s != Symbol::Unset ==> old(self).spec_pos() >= 1,
            final(self).toks() == old(self).toks(),
            final(self).spec_loops() == old(self).spec_loops(),
    {
        if self.symbol == s {
            self.nextsym();
            true
        } else {
            false
        }
    }

    /// `accept` where the symbol is required by the grammar.
    pub fn expect(&mut self, s: Symbol) -> (r: bool)
        requires
            old(self).wf(),
        ensures
            final(self).wf(),
            final(self).spec_pos() <= final(self).toks().len(),
            r == (old(self).spec_symbol() == s),
            r ==> final(self).spec_pos() == if old(self).spec_pos() < old(self).toks().len() {
                old(self).spec_pos() + 1
            } else {
                old(self).spec_pos() as int
            },
            r ==> final(self).spec_symbol() == sym_at(old(self).toks(), final(self).spec_pos() as int),
            !r ==> *final(self) == *old(self),
            r && s != Symbol::Eof ==> final(self).spec_pos() == old(self).spec_pos() + 1,
            r && s != Symbol::Unset ==> old(self).spec_pos() >= 1,
            final(self).toks() == old(self).toks(),
            final(self).spec_loops() == old(self).spec_loops(),
    {
        self.accept(s)
    }

    /// `accept` where the symbol is optional.
    pub fn expect_quiet(&mut self, s: Symbol) -> (r: bool)
        requires
            old(self).wf(),
        ensures
            final(self).wf(),
            final(self).spec_pos() <= final(self).toks().len(),
            r == (old(self).spec_symbol() == s),
            r ==> final(self).spec_pos() == if old(self).spec_pos() < old(self).toks().len() {
                old(self).spec_pos() + 1
            } else {
                old(self).spec_pos() as int
            },
            r ==> final(self).spec_symbol() == sym_at(old(self).toks(), final(self).spec_pos() as int),
            !r ==> *final(self) == *old(self),
            r && s != Symbol::Eof ==> final(self).spec_pos() == old(self).spec_pos() + 1,
            r && s != Symbol::Unset ==> old(self).spec_pos() >= 1,
            final(self).toks() == old(self).toks(),
            final(self).spec_loops() == old(self).spec_loops(),
    {
        self.accept(s)
    }

    /// Skips the body of a loop whose condition failed: reads on to the next
    /// `#end` (or to the end of the tokens) and past it.
    pub fn fast_forward_to_end(&mut self)
        requires
            old(self).wf(),
            old(self).spec_pos() >= 1,
        ensures
            final(self).wf(),
            final(self).spec_pos() <= final(self).toks().len(),
            final(self).spec_pos() == if end_from(old(self).toks(), old(self).spec_pos() as int)
                < old(self).toks().len() {
                end_from(old(self).toks(), old(self).spec_pos() as int) + 1
            } else {
                old(self).toks().len() as int
            },
            final(self).spec_symbol() == sym_at(old(self).toks(), final(self).spec_pos() as int),
            final(self).toks() == old(self).toks(),
            final(self).spec_loops() == old(self).spec_loops(),
    {
        let ghost t = self.toks();
        let ghost start = self.pos as int;
        while self.pos < self.tokens.len() && self.symbol != Symbol::End
            invariant
                self.wf(),
                self.pos >= 1,
                self.toks() == t,
                self.loops@ == old(self).loops@,
                self.tokens@.len() == old(self).tokens@.len(),
                start <= self.pos,
                end_from(t, start) == end_from(t, self.pos as int),
            decreases self.tokens@.len() - self.pos,
        {
            assert(end_from(t, self.pos as int) == end_from(t, self.pos + 1));
            self.nextsym();
        }
        self.nextsym();
    }

    /// Records `start`, the position of a `#while`, as the start of a loop.
    pub fn mark_loop(&mut self, start: usize)
        requires
            old(self).wf(),
            1 <= start <= old(self).toks().len(),
        ensures
            final(self).wf(),
            final(self).spec_pos() <= final(self).toks().len(),
            final(self).spec_loops() == old(self).spec_loops().push(start),
            final(self).spec_pos() == old(self).spec_pos(),
            final(self).spec_symbol() == old(self).spec_symbol(),
            final(self).toks() == old(self).toks(),
    {
        self.loops.push(start);
    }

    /// Goes back to the start of the innermost loop and forgets it; `false`,
    /// with nothing changed, when no loop is open.
    pub fn repeat_loop(&mut self) -> (r: bool)
        requires
            old(self).wf(),
        ensures
            final(self).wf(),
            final(self).spec_pos() <= final(self).toks().len(),
            r == (old(self).spec_loops().len() > 0),
            r ==> final(self).spec_loops() == old(self).spec_loops().drop_last(),
            r ==> final(self).spec_pos() == old(self).spec_loops().last() as int,
            r ==> final(self).spec_symbol() == sym_at(old(self).toks(), final(self).spec_pos() as int),
            !r ==> *final(self) == *old(self),
            final(self).toks() == old(self).toks(),
    {
        if self.loops.len() == 0 {
            return false;
        }
        match self.loops.pop() {
            Some(start) => {
                assert(1 <= old(self).loops@[old(self).loops@.len() - 1]);
                self.jump_to(start);
                true
            },
            None => false,
        }
    }
}

} // verus!
