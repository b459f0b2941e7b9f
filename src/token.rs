//! Tokens, their definitions as patterns, and the lexer that matches them.

use vstd::prelude::*;
use crate::pattern::{regex_compiles, Pattern};
use crate::pointer::ReadPointer;
use crate::reader::{is_prefix, lex_match, token_mark, LineReader, SizeType};
use crate::text::{append_chars, chars_of, same_text, string_of};

verus! {

/// A raw token: its type, the text it matched, and where it was found.
#[derive(Clone, Debug)]
pub struct Token {
    /// Name of the token's type
    pub token_type: String,
    /// Raw value of the token
    pub value: String,
    /// The read position of where the token was found.
    pub position: ReadPointer,
}

impl SizeType for Token {
    open spec fn spec_size(&self) -> nat {
        if self.position.read_pos.0 <= self.position.read_pos.1 {
            (self.position.read_pos.1 - self.position.read_pos.0) as nat
        } else {
            0
        }
    }

    fn get_size(&self) -> (r: usize) {
        if self.position.read_pos.0 <= self.position.read_pos.1 {
            self.position.len()
        } else {
            0
        }
    }
}

impl Token {
    /// Make a new token.
    pub fn new(token_type: &str, value: &str, position: ReadPointer) -> (r: Token)
        ensures
            r.token_type@ == token_type@,
            r.value@ == value@,
            r.position == position,
    {
        Token { token_type: token_type.to_owned(), value: value.to_owned(), position }
    }

    /// The text `type:value`.
    pub fn render(&self) -> (r: String)
        ensures
            r@ == token_text(self.token_type@, self.value@),
    {
        let mut out: Vec<char> = chars_of(self.token_type.as_str());
        out.push(':');
        let v = chars_of(self.value.as_str());
        append_chars(&mut out, v.as_slice());
        string_of(out.as_slice())
    }
}

/// How a token is written: its type, a colon, and its value.
pub open spec fn token_text(token_type: Seq<char>, value: Seq<char>) -> Seq<char> {
    token_type + seq![':'] + value
}

/// The pattern that matches `regex` at the very start of the haystack only: `\A(regex)`.
pub open spec fn anchored(regex: Seq<char>) -> Seq<char> {
    seq!['\\', 'A', '('] + regex + seq![')']
}

/// A token type with the pattern that its tokens match.
#[derive(Debug)]
pub struct TokenDef {
    token_type: String,
    pattern: Pattern,
}

impl TokenDef {
    /// The token type this definition matches.
    pub closed spec fn kind(&self) -> Seq<char> {
        self.token_type@
    }

    /// The source text of the definition's pattern.
    pub closed spec fn source(&self) -> Seq<char> {
        self.pattern.source()
    }

    /// Make a token definition for `token_type`, matching `regex` at the
    /// reading position only; an error where the pattern does not build.
    pub fn new(token_type: &str, regex: &str) -> (r: Result<TokenDef, String>)
        ensures
            r is Ok <==> regex_compiles(anchored(regex@)),
            r matches Ok(d) ==> d.kind() == token_type@ && d.source() == anchored(regex@),
    {
        let pattern = TokenDef::build_regex(regex)?;
        Ok(TokenDef { token_type: token_type.to_owned(), pattern })
    }

    /// Build the regex `\A(regex)`, so that a token must come next in the
    /// content to match.
    fn build_regex(regex: &str) -> (r: Result<Pattern, String>)
        ensures
            r is Ok <==> regex_compiles(anchored(regex@)),
            r matches Ok(p) ==> p.source() == anchored(regex@),
    {
        let mut pattern: Vec<char> = Vec::new();
        pattern.push('\\');
        pattern.push('A');
        pattern.push('(');
        let body = chars_of(regex);
        append_chars(&mut pattern, body.as_slice());
        pattern.push(')');
        assert(pattern@ =~= anchored(regex@));
        let text = string_of(pattern.as_slice());
        match Pattern::compile(text.as_str()) {
            Ok(re) => Ok(re),
            Err(_) => {
                let mut msg: Vec<char> = chars_of("Cannot Build Token Definition - Regex Error for: ");
                append_chars(&mut msg, pattern.as_slice());
                Err(string_of(msg.as_slice()))
            },
        }
    }
}

/// Matches tokens, of the types it has definitions for, at a reader's position.
pub struct Lexer {
    // a list rather than a map: matching any type tries the definitions in
    // the order they were added, and a map keyed by text proves nothing here
    definitions: Vec<TokenDef>,
}

/// No two definitions share a token type.
pub open spec fn distinct_kinds(defs: Seq<TokenDef>) -> bool {
    forall|i: int, j: int| 0 <= i < j < defs.len() ==> defs[i].kind() != defs[j].kind()
}

impl Lexer {
    /// The definitions, in the order they were first added.
    pub closed spec fn defs(&self) -> Seq<TokenDef> {
        self.definitions@
    }

    /// The token types defined, in the order they were first added.
    pub open spec fn kinds(&self) -> Seq<Seq<char>> {
        self.defs().map_values(|d: TokenDef| d.kind())
    }

    pub open spec fn wf(&self) -> bool {
        distinct_kinds(self.defs())
    }

    /// A lexer with no definitions.
    pub fn new() -> (r: Lexer)
        ensures
            r.wf(),
            r.defs().len() == 0,
    {
        Lexer { definitions: Vec::new() }
    }

    /// Add, or replace, the definition of `token_type` as `regex`; an error,
    /// leaving the lexer as it was, where the pattern does not build.
    pub fn define(&mut self, token_type: &str, regex: &str) -> (r: Result<(), String>)
        requires
            old(self).wf(),
        ensures
            final(self).wf(),
            r is Ok <==> regex_compiles(anchored(regex@)),
            r is Err ==> final(self).defs() == old(self).defs(),
            r is Ok ==> final(self).kinds() == define_kind(old(self).kinds(), token_type@),
    {
        let def = TokenDef::new(token_type, regex)?;
        self.define_token(def);
        Ok(())
    }

    /// Add `def`, or let it replace the definition of the same token type,
    /// which keeps its place.
    pub fn define_token(&mut self, def: TokenDef)
        requires
            old(self).wf(),
        ensures
            final(self).wf(),
            final(self).kinds() == define_kind(old(self).kinds(), def.kind()),
            final(self).defs().contains(def),
    {
        let mut i: usize = 0;
        while i < self.definitions.len()
            invariant
                i <= self.definitions@.len(),
                self.definitions@ == old(self).definitions@,
                distinct_kinds(self.defs()),
                forall|j: int| 0 <= j < i ==> self.definitions@[j].kind() != def.kind(),
            decreases self.definitions@.len() - i,
        {
            if self.definitions[i].token_type == def.token_type {
                let ghost before = self.definitions@;
                self.definitions.set(i, def);
                proof {
                    assert(self.defs() == before.update(i as int, def));
                    assert(self.kinds() =~= old(self).kinds().update(i as int, def.kind()));
                    lemma_define_kind_found(old(self).kinds(), def.kind(), i as int);
                    assert(self.defs()[i as int] == def);
                    assert forall|a: int, b: int| 0 <= a < b < self.defs().len() implies self.defs()[a].kind() != self.defs()[b].kind() by {
                        assert(old(self).defs()[a].kind() == old(self).kinds()[a]);
                        assert(old(self).defs()[b].kind() == old(self).kinds()[b]);
                    }
                }
                return;
            }
            i = i + 1;
        }
        self.definitions.push(def);
        proof {
            assert(self.kinds() =~= old(self).kinds().push(def.kind()));
            lemma_define_kind_new(old(self).kinds(), def.kind());
            assert(self.defs()[self.defs().len() - 1] == def);
        }
    }

    /// The index of the definition of `token_type`, if there is one.
    fn find(&self, token_type: &str) -> (r: Option<usize>)
        requires
            self.wf(),
        ensures
            r matches Some(i) ==> i < self.defs().len() && self.defs()[i as int].kind() == token_type@,
            r is None ==> !self.kinds().contains(token_type@),
    {
        let mut i: usize = 0;
        while i < self.definitions.len()
            invariant
                i <= self.definitions@.len(),
                forall|j: int| 0 <= j < i ==> self.definitions@[j].kind() != token_type@,
            decreases self.definitions@.len() - i,
        {
            if same_text(&self.definitions[i].token_type, token_type) {
                return Some(i);
            }
            i = i + 1;
        }
        proof {
            if self.kinds().contains(token_type@) {
                let k = choose|k: int| 0 <= k < self.kinds().len() && self.kinds()[k] == token_type@;
                assert(self.defs()[k].kind() == token_type@);
            }
        }
        None
    }

    /// The next token in the reader, of type `token_type`; `None` where that
    /// type has no definition or its pattern does not match there.
    pub fn get_next_token(&self, token_type: &str, reader: &LineReader) -> (r: Option<Token>)
        requires
            self.wf(),
            reader.wf(),
        ensures
            self.next_token(token_type@, reader.rest()) is None ==> r is None,
            self.next_token(token_type@, reader.rest()) matches Some(v) ==> (r matches Some(t) && {
                &&& t.token_type@ == token_type@
                &&& t.value@ == v
                &&& found_at(t, reader)
            }),
    {
        match self.find(token_type) {
            Some(i) => {
                proof {
                    let j = choose|j: int| 0 <= j < self.defs().len() && self.defs()[j].kind() == token_type@;
                    assert(self.defs()[i as int].kind() == token_type@);
                    assert(i == j);
                }
                self.get_next(&self.definitions[i], reader)
            },
            None => {
                proof {
                    if exists|j: int| 0 <= j < self.defs().len() && self.defs()[j].kind() == token_type@ {
                        let j = choose|j: int| 0 <= j < self.defs().len() && self.defs()[j].kind() == token_type@;
                        assert(self.kinds()[j] == token_type@);
                    }
                }
                None
            },
        }
    }

    /// The next token in the reader of any defined type, trying the
    /// definitions in the order they were added; the first that matches wins.
    pub fn get_next_any(&self, reader: &LineReader) -> (r: Option<Token>)
        requires
            reader.wf(),
        ensures
            self.first_match(reader.rest(), 0) is None ==> r is None,
            self.first_match(reader.rest(), 0) matches Some(k) ==> (r matches Some(t) && {
                &&& t.token_type@ == self.defs()[k].kind()
                &&& Some(t.value@) == lex_match(self.defs()[k].source(), reader.rest())
                &&& found_at(t, reader)
            }),
    {
        let mut i: usize = 0;
        while i < self.definitions.len()
            invariant
                i <= self.definitions@.len(),
                reader.wf(),
                self.first_match(reader.rest(), 0) == self.first_match(reader.rest(), i as int),
            decreases self.definitions@.len() - i,
        {
            let found = self.get_next(&self.definitions[i], reader);
            if let Some(t) = found {
                return Some(t);
            }
            i = i + 1;
        }
        None
    }

    /// The next token in the reader that matches `def`.
    pub fn get_next(&self, def: &TokenDef, reader: &LineReader) -> (r: Option<Token>)
        requires
            reader.wf(),
        ensures
            lex_match(def.source(), reader.rest()) is None ==> r is None,
            lex_match(def.source(), reader.rest()) matches Some(v) ==> (r matches Some(t) && {
                &&& t.token_type@ == def.kind()
                &&& t.value@ == v
                &&& found_at(t, reader)
            }),
    {
        match reader.read_regex(&def.pattern) {
            Some((value, position)) => Some(Token::new(def.token_type.as_str(), value.as_str(), position)),
            None => None,
        }
    }

    /// What the definition of type `ty` reads at the start of `rest`; nothing
    /// where that type is not defined.
    pub open spec fn next_token(&self, ty: Seq<char>, rest: Seq<char>) -> Option<Seq<char>> {
        if exists|j: int| 0 <= j < self.defs().len() && self.defs()[j].kind() == ty {
            let j = choose|j: int| 0 <= j < self.defs().len() && self.defs()[j].kind() == ty;
            lex_match(self.defs()[j].source(), rest)
        } else {
            None
        }
    }

    /// The first definition, from index `i` on, whose pattern reads something
    /// at the start of `rest`.
    pub open spec fn first_match(&self, rest: Seq<char>, i: int) -> Option<int>
        decreases self.defs().len() - i,
    {
        if i < 0 || i >= self.defs().len() {
            None
        } else if lex_match(self.defs()[i].source(), rest) is Some {
            Some(i)
        } else {
            self.first_match(rest, i + 1)
        }
    }
}

/// `t` is a token read right after the reader's pending span: its value comes
/// next in the text, and its position spans it.
pub open spec fn found_at(t: Token, reader: &LineReader) -> bool {
    &&& is_prefix(t.value@, reader.rest())
    &&& t.position.mark() == token_mark(reader.cursor().mark(), t.value@)
    &&& t.position.saved() == reader.cursor().saved()
}

/// The token types after defining `k`: unchanged where `k` is among them,
/// else with `k` added at the end.
pub open spec fn define_kind(kinds: Seq<Seq<char>>, k: Seq<char>) -> Seq<Seq<char>> {
    if kinds.contains(k) {
        kinds
    } else {
        kinds.push(k)
    }
}

/// A type once defined stays defined.
pub proof fn lemma_define_kind_keeps(kinds: Seq<Seq<char>>, k: Seq<char>)
    ensures
        define_kind(kinds, k).contains(k),
{
    if !kinds.contains(k) {
        assert(kinds.push(k)[kinds.len() as int] == k);
    }
}

proof fn lemma_define_kind_found(kinds: Seq<Seq<char>>, k: Seq<char>, i: int)
    requires
        0 <= i < kinds.len(),
        kinds[i] == k,
    ensures
        define_kind(kinds, k) == kinds.update(i, k),
{
    assert(kinds.update(i, k) =~= kinds);
}

proof fn lemma_define_kind_new(kinds: Seq<Seq<char>>, k: Seq<char>)
    requires
        forall|j: int| 0 <= j < kinds.len() ==> kinds[j] != k,
    ensures
        define_kind(kinds, k) == kinds.push(k),
{
}

} // verus!
