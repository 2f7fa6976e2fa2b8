//! The tokens of a directive block.
//!
//! A block is written with words (`get`, `rename`), quoted texts (`"pub(crate)"`) and four
//! punctuation marks: comma, equals sign and the two round brackets. White space separates
//! tokens and means nothing else. A quoted text runs to the next double quote and holds no
//! backslash: the values of a directive are identifiers and visibilities, which need no
//! escapes.

use vstd::prelude::*;

use crate::text::{characters, piece};

verus! {

/// One token of a directive block.
#[derive(Debug, PartialEq, Eq)]
pub enum Token {
    /// A run of letters, digits and underscores that starts with no digit.
    Word(String),
    /// What stands between two double quotes.
    Text(String),
    Comma,
    Equals,
    Open,
    Close,
}

/// A token as a mathematical value.
pub enum TokenView {
    Word(Seq<char>),
    Text(Seq<char>),
    Comma,
    Equals,
    Open,
    Close,
}

impl View for Token {
    type V = TokenView;

    open spec fn view(&self) -> TokenView {
        match *self {
            Token::Word(word) => TokenView::Word(word@),
            Token::Text(text) => TokenView::Text(text@),
            Token::Comma => TokenView::Comma,
            Token::Equals => TokenView::Equals,
            Token::Open => TokenView::Open,
            Token::Close => TokenView::Close,
        }
    }
}

impl DeepView for Token {
    type V = TokenView;

    open spec fn deep_view(&self) -> TokenView {
        self.view()
    }
}

/// The characters that may follow one another within a token.
#[derive(Clone, Copy, Debug, PartialEq, Eq, Structural)]
pub enum CharClass {
    /// Letters, digits and the underscore: what continues a word.
    Word,
    /// Everything but the double quote and the backslash: what a quoted text holds.
    Text,
}

/// Whether `c` separates tokens.
pub open spec fn is_space(c: char) -> bool {
    c == ' ' || c == '\t' || c == '\n' || c == '\r'
}

/// Whether a word can start with `c`: a letter or the underscore.
pub open spec fn starts_word(c: char) -> bool {
    ('a' <= c && c <= 'z') || ('A' <= c && c <= 'Z') || c == '_'
}

/// The punctuation mark that `c` is, if it is one.
pub open spec fn punctuation(c: char) -> Option<TokenView> {
    if c == ',' {
        Some(TokenView::Comma)
    } else if c == '=' {
        Some(TokenView::Equals)
    } else if c == '(' {
        Some(TokenView::Open)
    } else if c == ')' {
        Some(TokenView::Close)
    } else {
        None
    }
}

impl CharClass {
    /// Whether `c` belongs to the class.
    pub open spec fn spec_holds(self, c: char) -> bool {
        match self {
            CharClass::Word => starts_word(c) || ('0' <= c && c <= '9'),
            CharClass::Text => c != '"' && c != '\\',
        }
    }

    /// Whether `c` belongs to the class.
    pub fn holds(self, c: char) -> (held: bool)
        ensures
            held == self.spec_holds(c),
    {
        match self {
            CharClass::Word => word_start(c) || (c >= '0' && c <= '9'),
            CharClass::Text => c != '"' && c != '\\',
        }
    }
}

/// Where the run of characters of `class` that starts at `i` ends: the first place from
/// `i` on that holds no character of the class.
pub open spec fn run_end(s: Seq<char>, class: CharClass, i: int) -> int
    decreases s.len() - i,
{
    if 0 <= i < s.len() && class.spec_holds(s[i]) {
        run_end(s, class, i + 1)
    } else {
        i
    }
}

/// `token` in front of `rest`, where there is a rest.
pub open spec fn prepend(token: TokenView, rest: Option<Seq<TokenView>>) -> Option<
    Seq<TokenView>,
> {
    match rest {
        Some(tokens) => Some(seq![token] + tokens),
        None => None,
    }
}

/// The tokens of `s` from place `i` on; nothing where a character starts no token or a
/// quoted text is not closed.
pub open spec fn scan(s: Seq<char>, i: int) -> Option<Seq<TokenView>>
    decreases s.len() - i,
    via scan_terminates
{
    if !(0 <= i < s.len()) {
        Some(seq![])
    } else if is_space(s[i]) {
        scan(s, i + 1)
    } else if punctuation(s[i]) is Some {
        prepend(punctuation(s[i])->0, scan(s, i + 1))
    } else if starts_word(s[i]) {
        let end = run_end(s, CharClass::Word, i + 1);
        prepend(TokenView::Word(s.subrange(i, end)), scan(s, end))
    } else if s[i] == '"' {
        let end = run_end(s, CharClass::Text, i + 1);
        if end < s.len() && s[end] == '"' {
            prepend(TokenView::Text(s.subrange(i + 1, end)), scan(s, end + 1))
        } else {
            None
        }
    } else {
        None
    }
}

#[via_fn]
proof fn scan_terminates(s: Seq<char>, i: int) {
    if 0 <= i < s.len() {
        lemma_run_end_bounds(s, CharClass::Word, i + 1);
        lemma_run_end_bounds(s, CharClass::Text, i + 1);
    }
}

/// The tokens of `s`.
pub open spec fn tokens_of(s: Seq<char>) -> Option<Seq<TokenView>> {
    scan(s, 0)
}

/// A run ends at or after its start and within the text; it holds only characters of its
/// class, and the character after it, if any, is not of the class.
pub proof fn lemma_run_end_bounds(s: Seq<char>, class: CharClass, i: int)
    requires
        0 <= i <= s.len(),
    ensures
        i <= run_end(s, class, i) <= s.len(),
        forall|k: int| i <= k < run_end(s, class, i) ==> class.spec_holds(#[trigger] s[k]),
        run_end(s, class, i) < s.len() ==> !class.spec_holds(s[run_end(s, class, i)]),
    decreases s.len() - i,
{
    if i < s.len() && class.spec_holds(s[i]) {
        lemma_run_end_bounds(s, class, i + 1);
    }
}

/// `rest` behind `tokens`, where there is a rest.
pub open spec fn followed_by(tokens: Seq<TokenView>, rest: Option<Seq<TokenView>>) -> Option<
    Seq<TokenView>,
> {
    match rest {
        Some(more) => Some(tokens + more),
        None => None,
    }
}

proof fn lemma_followed_by_prepend(
    tokens: Seq<TokenView>,
    token: TokenView,
    rest: Option<Seq<TokenView>>,
)
    ensures
        followed_by(tokens, prepend(token, rest)) == followed_by(tokens.push(token), rest),
{
    if rest is Some {
        assert(tokens + (seq![token] + rest->0) =~= tokens.push(token) + rest->0);
    }
}

fn space(c: char) -> (held: bool)
    ensures
        held == is_space(c),
{
    c == ' ' || c == '\t' || c == '\n' || c == '\r'
}

fn word_start(c: char) -> (held: bool)
    ensures
        held == starts_word(c),
{
    (c >= 'a' && c <= 'z') || (c >= 'A' && c <= 'Z') || c == '_'
}

fn mark(c: char) -> (token: Option<Token>)
    ensures
        token.deep_view() == punctuation(c),
{
    if c == ',' {
        Some(Token::Comma)
    } else if c == '=' {
        Some(Token::Equals)
    } else if c == '(' {
        Some(Token::Open)
    } else if c == ')' {
        Some(Token::Close)
    } else {
        None
    }
}

/// Where the run of characters of `class` that starts at `start` ends.
fn run(chars: &Vec<char>, class: CharClass, start: usize) -> (end: usize)
    requires
        start <= chars.len(),
    ensures
        end == run_end(chars@, class, start as int),
        start <= end <= chars.len(),
{
    let mut end = start;
    while end < chars.len() && class.holds(chars[end])
        invariant
            start <= end <= chars.len(),
            run_end(chars@, class, end as int) == run_end(chars@, class, start as int),
        decreases chars.len() - end,
    {
        end += 1;
    }
    end
}

/// Splits `text` into its tokens.
///
/// Gives nothing exactly where the text holds a character that starts no token, a quoted
/// text without its closing quote, or a backslash inside a quoted text.
pub fn tokenize(text: &str) -> (tokens: Option<Vec<Token>>)
    ensures
        tokens.deep_view() == tokens_of(text@),
{
    let chars = characters(text);
    let n = chars.len();
    let mut out: Vec<Token> = Vec::new();
    let mut i: usize = 0;
    assert(out.deep_view() =~= Seq::<TokenView>::empty());
    assert(followed_by(Seq::empty(), scan(text@, 0)) == scan(text@, 0)) by {
        if scan(text@, 0) is Some {
            assert(Seq::<TokenView>::empty() + scan(text@, 0)->0 =~= scan(text@, 0)->0);
        }
    }
    while i < n
        invariant
            chars@ == text@,
            n == chars.len(),
            i <= n,
            scan(text@, 0) == followed_by(out.deep_view(), scan(text@, i as int)),
        decreases n - i,
    {
        let c = chars[i];
        let ghost before = out.deep_view();
        if space(c) {
            i += 1;
        } else if let Some(token) = mark(c) {
            proof {
                lemma_followed_by_prepend(before, token@, scan(text@, i + 1));
            }
            out.push(token);
            assert(out.deep_view() =~= before.push(token@));
            i += 1;
        } else if word_start(c) {
            let end = run(&chars, CharClass::Word, i + 1);
            let word = Token::Word(piece(text, i, end));
            proof {
                lemma_followed_by_prepend(before, word@, scan(text@, end as int));
            }
            out.push(word);
            assert(out.deep_view() =~= before.push(word@));
            i = end;
        } else if c == '"' {
            let end = run(&chars, CharClass::Text, i + 1);
            if end < n && chars[end] == '"' {
                let quoted = Token::Text(piece(text, i + 1, end));
                proof {
                    lemma_followed_by_prepend(before, quoted@, scan(text@, end + 1));
                }
                out.push(quoted);
                assert(out.deep_view() =~= before.push(quoted@));
                i = end + 1;
            } else {
                return None;
            }
        } else {
            return None;
        }
    }
    assert(out.deep_view() + Seq::<TokenView>::empty() =~= out.deep_view());
    Some(out)
}

} // verus!
