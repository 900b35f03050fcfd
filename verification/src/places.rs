//! Places in the text as it was written. The tokens are read from the
//! text with the semicolons put in that need not be written; what they
//! cover is counted here in the text without them.

use vstd::prelude::*;
use vstd::string::StringSliceAdditionalSpecFns;
use vstd::utf8::encode_utf8;
use crate::lexer::LexFailure;
use crate::span::Span;
use crate::token::{token_views, Token, TokenView};

verus! {

/// Where the byte `n` of `prepared` lies in `written`, `prepared` being
/// `written` with bytes put in: the bytes of the two are paired off from
/// the start, and a byte of `prepared` that is not the next byte of
/// `written` counts as put in. A place behind `prepared` lies where its
/// end lies.
pub open spec fn source_place(written: Seq<u8>, prepared: Seq<u8>, n: nat) -> nat
    decreases n,
{
    if n == 0 {
        0
    } else {
        let before = source_place(written, prepared, (n - 1) as nat);
        if n - 1 < prepared.len() && before < written.len() && prepared[n - 1] == written[before as int] {
            before + 1
        } else {
            before
        }
    }
}

/// A span of `prepared` as a span of `written`.
pub open spec fn source_span(written: Seq<u8>, prepared: Seq<u8>, span: Span) -> Span {
    Span {
        start: source_place(written, prepared, span.start as nat) as usize,
        end: source_place(written, prepared, span.end as nat) as usize,
    }
}

/// A token with what it covers counted in `written`.
pub open spec fn placed_token(written: Seq<u8>, prepared: Seq<u8>, token: TokenView) -> TokenView {
    TokenView { span: source_span(written, prepared, token.span), ..token }
}

/// The tokens with what they cover counted in `written`.
pub open spec fn placed(written: Seq<u8>, prepared: Seq<u8>, tokens: Seq<TokenView>) -> Seq<TokenView> {
    tokens.map_values(|t: TokenView| placed_token(written, prepared, t))
}

/// A failure of the lexer with its place counted in `written`.
pub open spec fn placed_failure(written: Seq<u8>, prepared: Seq<u8>, failure: LexFailure) -> LexFailure {
    LexFailure { kind: failure.kind, span: source_span(written, prepared, failure.span) }
}

proof fn lemma_place_bounded(written: Seq<u8>, prepared: Seq<u8>, n: nat)
    ensures
        source_place(written, prepared, n) <= n,
        source_place(written, prepared, n) <= written.len(),
    decreases n,
{
    if n > 0 {
        lemma_place_bounded(written, prepared, (n - 1) as nat);
    }
}

proof fn lemma_place_behind_the_end(written: Seq<u8>, prepared: Seq<u8>, n: nat)
    requires
        n >= prepared.len(),
    ensures
        source_place(written, prepared, n) == source_place(written, prepared, prepared.len()),
    decreases n,
{
    if n > prepared.len() {
        lemma_place_behind_the_end(written, prepared, (n - 1) as nat);
    }
}

/// The places of the written text for every place of the prepared one,
/// the end included.
pub struct Places {
    pub table: Vec<usize>,
    /// The bytes of the text as it was written.
    pub written: Ghost<Seq<u8>>,
    /// The bytes of the text with the semicolons put in.
    pub prepared: Ghost<Seq<u8>>,
}

impl Places {
    /// Whether the table holds the place of every byte of the prepared
    /// text and of its end.
    pub open spec fn wf(&self) -> bool {
        &&& self.table@.len() == self.prepared@.len() + 1
        &&& forall|n: int|
            0 <= n <= self.prepared@.len() ==> #[trigger] self.table@[n] == source_place(
                self.written@,
                self.prepared@,
                n as nat,
            )
    }

    /// Pairs the two texts off.
    pub fn new(written: &str, prepared: &str) -> (r: Self)
        ensures
            r.wf(),
            r.written@ == encode_utf8(written@),
            r.prepared@ == encode_utf8(prepared@),
    {
        let w = written.as_bytes();
        let p = prepared.as_bytes();
        let mut table: Vec<usize> = Vec::new();
        table.push(0);
        let mut at: usize = 0;
        let mut n: usize = 0;
        while n < p.len()
            invariant
                n <= p.len(),
                w@ == written.spec_bytes(),
                p@ == prepared.spec_bytes(),
                table@.len() == n + 1,
                at == source_place(w@, p@, n as nat),
                at <= n,
                at <= w.len(),
                forall|k: int| 0 <= k <= n ==> #[trigger] table@[k] == source_place(w@, p@, k as nat),
            decreases p.len() - n,
        {
            if at < w.len() && p[n] == w[at] {
                at = at + 1;
            }
            n = n + 1;
            table.push(at);
        }
        Places { table, written: Ghost(w@), prepared: Ghost(p@) }
    }

    /// Where the byte `n` of the prepared text lies in the written one.
    pub fn place(&self, n: usize) -> (r: usize)
        requires
            self.wf(),
        ensures
            r == source_place(self.written@, self.prepared@, n as nat),
    {
        let last: usize = self.table.len() - 1;
        if n <= last {
            self.table[n]
        } else {
            proof {
                lemma_place_behind_the_end(self.written@, self.prepared@, n as nat);
            }
            self.table[last]
        }
    }

    /// A span of the prepared text as a span of the written one.
    pub fn span(&self, span: Span) -> (r: Span)
        requires
            self.wf(),
        ensures
            r == source_span(self.written@, self.prepared@, span),
    {
        Span { start: self.place(span.start), end: self.place(span.end) }
    }

    /// The tokens with what they cover counted in the written text.
    pub fn tokens(&self, tokens: &Vec<Token>) -> (r: Vec<Token>)
        requires
            self.wf(),
        ensures
            token_views(r@) == placed(self.written@, self.prepared@, token_views(tokens@)),
    {
        let mut out: Vec<Token> = Vec::new();
        let mut i: usize = 0;
        while i < tokens.len()
            invariant
                i <= tokens.len(),
                self.wf(),
                out.len() == i,
                forall|k: int|
                    0 <= k < i ==> (#[trigger] out[k])@ == placed_token(self.written@, self.prepared@, tokens[k]@),
            decreases tokens.len() - i,
        {
            let token = &tokens[i];
            out.push(
                Token { kind: token.kind, text: token.text.clone(), number: token.number, span: self.span(token.span) },
            );
            i = i + 1;
        }
        assert(token_views(out@) =~= placed(self.written@, self.prepared@, token_views(tokens@)));
        out
    }
}

} // verus!
