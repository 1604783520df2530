//! The reader: from text to tokens to values.

use crate::error::{EvaluationError, ReaderError};
use crate::model::{entries_from_items, Failure, Value};
use crate::text::{from_chars, owned, parse_int, parse_number, same_text, to_chars};
use crate::types::{
    new_boolean, new_keyword, new_list, new_map_from_seq, new_nil, new_number, new_string,
    new_symbol, new_vector, views, views_push, LispValue,
};
use regex::Regex;
use vstd::prelude::*;

verus! {

/// What reading gives.
pub type ReaderResult = Result<LispValue, ReaderError>;

/// Optional whitespace and commas, then one token: `~@`, a bracket or sigil,
/// a string literal, a comment, or a run of other characters.
pub const TOKEN_REGEX: &'static str =
    r#"[\s,]*(~@|[\[\]{}()'`~^@]|"(?:\\.|[^\\"])*"|;.*|[^\s\[\]{}('"`,;)]*)"#;

/// Whether a bracket opens or closes its extent.
#[derive(Debug, Clone, Copy, PartialEq, Eq, Structural)]
pub enum Direction {
    Open,
    Close,
}

/// A lexical token.
#[derive(Debug, Clone)]
pub enum Token {
    List(Direction),
    Vector(Direction),
    Dict(Direction),
    Atom(String),
    Comment(String),
}

/// The three kinds of bracket.
pub enum Bracket {
    List,
    Vector,
    Dict,
}

/// The model of a token.
pub enum Tok {
    Open(Bracket),
    Close(Bracket),
    Atom(Seq<char>),
    Comment(Seq<char>),
}

impl View for Token {
    type V = Tok;

    open spec fn view(&self) -> Tok {
        match *self {
            Token::List(Direction::Open) => Tok::Open(Bracket::List),
            Token::List(Direction::Close) => Tok::Close(Bracket::List),
            Token::Vector(Direction::Open) => Tok::Open(Bracket::Vector),
            Token::Vector(Direction::Close) => Tok::Close(Bracket::Vector),
            Token::Dict(Direction::Open) => Tok::Open(Bracket::Dict),
            Token::Dict(Direction::Close) => Tok::Close(Bracket::Dict),
            Token::Atom(s) => Tok::Atom(s@),
            Token::Comment(s) => Tok::Comment(s@),
        }
    }
}

/// The models of a sequence of tokens.
pub open spec fn token_views(ts: Seq<Token>) -> Seq<Tok> {
    Seq::new(ts.len(), |i: int| ts[i]@)
}

/// The model of a reader error.
pub enum ReadFailure {
    Message(Seq<char>),
    ExtraInput(Seq<Tok>, usize),
    EmptyInput,
}

impl View for ReaderError {
    type V = ReadFailure;

    open spec fn view(&self) -> ReadFailure {
        match *self {
            ReaderError::Message(s) => ReadFailure::Message(s@),
            ReaderError::ExtraInput(ts, pos) => ReadFailure::ExtraInput(token_views(ts@), pos),
            ReaderError::EmptyInput => ReadFailure::EmptyInput,
        }
    }
}

/// The model of a reading's result.
pub open spec fn reader_result_view(r: ReaderResult) -> Result<Value, ReadFailure> {
    match r {
        Ok(v) => Ok(v@),
        Err(e) => Err(e@),
    }
}

/// The token that a piece of text is: a comment where it begins with a
/// semicolon, a bracket where it is one, else an atom.
pub open spec fn token_of(text: Seq<char>) -> Tok {
    if text.len() > 0 && text[0] == ';' {
        Tok::Comment(text)
    } else if text == "("@ {
        Tok::Open(Bracket::List)
    } else if text == ")"@ {
        Tok::Close(Bracket::List)
    } else if text == "["@ {
        Tok::Open(Bracket::Vector)
    } else if text == "]"@ {
        Tok::Close(Bracket::Vector)
    } else if text == "{"@ {
        Tok::Open(Bracket::Dict)
    } else if text == "}"@ {
        Tok::Close(Bracket::Dict)
    } else {
        Tok::Atom(text)
    }
}

/// The text that a match of the token pattern holds in its group: none
/// where the group took no part.
pub open spec fn group_text(g: Option<Seq<char>>) -> Seq<char> {
    match g {
        Some(t) => t,
        None => Seq::empty(),
    }
}

/// The tokens of the matches' groups.
pub open spec fn tokens_of(groups: Seq<Option<Seq<char>>>) -> Seq<Tok> {
    Seq::new(groups.len(), |i: int| token_of(group_text(groups[i])))
}

/// What the `regex` crate finds: `None` where `pattern` does not compile;
/// else, for each of the successive non-overlapping matches of `pattern` in
/// `text`, the text that its first capture group matched, `None` where that
/// group took no part in the match.
pub uninterp spec fn regex_first_groups(pattern: Seq<char>, text: Seq<char>) -> Option<
    Seq<Option<Seq<char>>>,
>;

/// The model of what `first_groups` returns.
pub open spec fn groups_view(r: Option<Vec<Option<String>>>) -> Option<Seq<Option<Seq<char>>>> {
    match r {
        Some(v) => Some(
            Seq::new(
                v@.len(),
                |i: int|
                    match v@[i] {
                        Some(s) => Some(s@),
                        None => None,
                    },
            ),
        ),
        None => None,
    }
}

/// Compiles `pattern` with `Regex::new` and walks `text` with
/// `Regex::captures_iter`; of each match it takes group 1 with
/// `Captures::get` and copies its text. The contract only names the
/// result: it is a function of the pattern and the text.
#[verifier::external_body]
fn first_groups(pattern: &str, text: &str) -> (r: Option<Vec<Option<String>>>)
    ensures
        groups_view(r) == regex_first_groups(pattern@, text@),
{
    match Regex::new(pattern) {
        Ok(re) => Some(
            re.captures_iter(text).map(|c| c.get(1).map(|m| m.as_str().to_string())).collect(),
        ),
        Err(_) => None,
    }
}

/// The tokens of the text `input`, as the token pattern cuts them.
pub open spec fn tokenizer_spec(input: Seq<char>) -> Seq<Tok> {
    match regex_first_groups(TOKEN_REGEX@, input) {
        Some(groups) => tokens_of(groups),
        None => Seq::empty(),
    }
}

/// Cuts the text into tokens.
pub fn tokenizer(input: String) -> (tokens: Vec<Token>)
    ensures
        token_views(tokens@) == tokenizer_spec(input@),
{
    let mut tokens: Vec<Token> = Vec::new();
    match first_groups(TOKEN_REGEX, input.as_str()) {
        None => {
            assert(token_views(tokens@) =~= tokenizer_spec(input@));
        },
        Some(groups) => {
            let ghost gs = groups_view(Some(groups))->0;
            let mut i: usize = 0;
            while i < groups.len()
                invariant
                    i <= groups.len(),
                    gs == groups_view(Some(groups))->0,
                    token_views(tokens@) == tokens_of(gs).subrange(0, i as int),
                decreases groups.len() - i,
            {
                let token = match &groups[i] {
                    Some(s) => token_from(s.as_str()),
                    None => token_from(""),
                };
                proof {
                    reveal_strlit("");
                    assert(""@ =~= Seq::<char>::empty());
                    assert(gs[i as int] == match groups@[i as int] {
                        Some(s) => Some(s@),
                        None => None,
                    });
                    assert(token@ == token_of(group_text(gs[i as int])));
                }
                let ghost before = tokens@;
                tokens.push(token);
                assert(token_views(tokens@) =~= token_views(before).push(token@));
                assert(token_views(tokens@) =~= tokens_of(gs).subrange(0, i + 1));
                i += 1;
            }
            assert(token_views(tokens@) =~= tokens_of(gs));
        },
    }
    tokens
}

/// The token that a piece of text is.
pub fn token_from(c: &str) -> (token: Token)
    ensures
        token@ == token_of(c@),
{
    if c.unicode_len() > 0 && c.get_char(0) == ';' {
        return Token::Comment(owned(c));
    }
    if same_text(c, "(") {
        Token::List(Direction::Open)
    } else if same_text(c, ")") {
        Token::List(Direction::Close)
    } else if same_text(c, "[") {
        Token::Vector(Direction::Open)
    } else if same_text(c, "]") {
        Token::Vector(Direction::Close)
    } else if same_text(c, "{") {
        Token::Dict(Direction::Open)
    } else if same_text(c, "}") {
        Token::Dict(Direction::Close)
    } else {
        Token::Atom(owned(c))
    }
}

impl Token {
    /// Whether the token is an atom without text.
    pub fn is_blank(&self) -> (r: bool)
        ensures
            r == (self@ == Tok::Atom(Seq::empty())),
    {
        match self {
            Token::Atom(s) => {
                let blank = s.as_str().unicode_len() == 0;
                proof {
                    if blank {
                        assert(s@ =~= Seq::<char>::empty());
                    }
                }
                blank
            },
            _ => false,
        }
    }

    /// A copy of the token.
    pub fn copy(&self) -> (r: Token)
        ensures
            r@ == self@,
    {
        match self {
            Token::List(d) => Token::List(*d),
            Token::Vector(d) => Token::Vector(*d),
            Token::Dict(d) => Token::Dict(*d),
            Token::Atom(s) => Token::Atom(s.clone()),
            Token::Comment(s) => Token::Comment(s.clone()),
        }
    }
}

/// A cursor over tokens.
#[derive(Debug)]
pub struct Reader {
    pub tokens: Vec<Token>,
    pub position: usize,
}

impl Reader {
    /// A cursor at the first of `tokens`.
    pub fn new(tokens: Vec<Token>) -> (r: Reader)
        ensures
            r.tokens == tokens,
            r.position == 0,
    {
        Reader { tokens: tokens, position: 0 }
    }

    /// The token under the cursor.
    pub fn peek(&self) -> (r: Option<Token>)
        ensures
            match r {
                Some(t) => self.position < self.tokens.len() && t@ == self.tokens[self.position as int]@,
                None => self.position >= self.tokens.len(),
            },
    {
        if self.position < self.tokens.len() {
            Some(self.tokens[self.position].copy())
        } else {
            None
        }
    }

    /// The tokens and where the cursor stands.
    pub fn extra_input(&self) -> (r: (Vec<Token>, usize))
        ensures
            token_views(r.0@) == token_views(self.tokens@),
            r.1 == self.position,
    {
        let mut copy: Vec<Token> = Vec::new();
        let mut i: usize = 0;
        while i < self.tokens.len()
            invariant
                i <= self.tokens.len(),
                token_views(copy@) == token_views(self.tokens@).subrange(0, i as int),
            decreases self.tokens.len() - i,
        {
            let ghost before = copy@;
            let t = self.tokens[i].copy();
            copy.push(t);
            assert(token_views(copy@) =~= token_views(before).push(t@));
            assert(token_views(copy@) =~= token_views(self.tokens@).subrange(0, i + 1));
            i += 1;
        }
        assert(token_views(copy@) =~= token_views(self.tokens@));
        (copy, self.position)
    }

    /// Whether the cursor is past the last token.
    pub fn is_empty(&self) -> (r: bool)
        ensures
            r == (self.position >= self.tokens.len()),
    {
        self.position >= self.tokens.len()
    }

    /// The token under the cursor; the cursor moves past it.
    pub fn next(&mut self) -> (r: Option<Token>)
        ensures
            final(self).tokens == old(self).tokens,
            match r {
                Some(t) => old(self).position < old(self).tokens.len() && t@ == old(
                    self,
                ).tokens[old(self).position as int]@ && final(self).position == old(
                    self,
                ).position + 1,
                None => old(self).position >= old(self).tokens.len() && final(self).position
                    == old(self).position,
            },
    {
        if self.position < self.tokens.len() {
            let t = self.tokens[self.position].copy();
            self.position = self.position + 1;
            Some(t)
        } else {
            None
        }
    }
}

/// The character that follows a backslash in an escape, decoded.
pub open spec fn escape_target(c: char) -> Option<char> {
    if c == 'n' {
        Some('\n')
    } else if c == '"' {
        Some('"')
    } else if c == '\\' {
        Some('\\')
    } else {
        None
    }
}

/// `acc`, then the rest of `s` from `i` on with its escapes decoded, left to
/// right: a backslash and `"`, `n` or a backslash stand for a quote, a
/// newline, a backslash; every other character stands for itself.
pub open spec fn unescape_from(s: Seq<char>, i: nat, acc: Seq<char>) -> Seq<char>
    decreases s.len() - i,
{
    if i >= s.len() {
        acc
    } else if s[i as int] == '\\' && i + 1 < s.len() && escape_target(s[i as int + 1]) is Some {
        unescape_from(s, i + 2, acc.push(escape_target(s[i as int + 1])->0))
    } else {
        unescape_from(s, i + 1, acc.push(s[i as int]))
    }
}

/// The string that the inside of a literal stands for.
pub open spec fn read_str_spec(s: Seq<char>) -> Seq<char> {
    unescape_from(s, 0, Seq::empty())
}

/// Whether a token is a string literal: quotes at both ends.
pub open spec fn is_string_token(t: Seq<char>) -> bool {
    t.len() >= 2 && t[0] == '"' && t.last() == '"'
}

/// The value that an atom's text stands for: `nil`, a boolean, an integer,
/// a keyword, a string, or else a symbol.
pub open spec fn atom_value(t: Seq<char>) -> Value {
    if t == "nil"@ {
        Value::Nil
    } else if t == "true"@ {
        Value::Boolean(true)
    } else if t == "false"@ {
        Value::Boolean(false)
    } else if parse_int(t) is Some {
        Value::Number(parse_int(t)->0)
    } else if t.len() > 0 && t[0] == ':' {
        Value::Keyword(t)
    } else if is_string_token(t) {
        Value::String(read_str_spec(t.subrange(1, t.len() - 1)))
    } else {
        Value::symbol(t)
    }
}

/// The form that a sigil stands for, by the name of its head.
pub open spec fn sigil_name(t: Seq<char>) -> Option<Seq<char>> {
    if t == "'"@ {
        Some("quote"@)
    } else if t == "`"@ {
        Some("quasiquote"@)
    } else if t == "~"@ {
        Some("unquote"@)
    } else if t == "~@"@ {
        Some("splice-unquote"@)
    } else if t == "@"@ {
        Some("deref"@)
    } else {
        None
    }
}

/// The value that the items between two brackets make.
pub open spec fn close_seq(b: Bracket, items: Seq<Value>) -> Result<Value, ReadFailure> {
    match b {
        Bracket::List => Ok(Value::list(items)),
        Bracket::Vector => Ok(Value::vector(items)),
        Bracket::Dict => match entries_from_items(items) {
            Ok(es) => Ok(Value::dict(es)),
            Err(Failure::Message(s)) => Err(ReadFailure::Message(s)),
            Err(_) => Err(ReadFailure::Message("could not read map"@)),
        },
    }
}

/// Whether no token at or after `pos` is anything but a blank one.
pub open spec fn only_blanks(toks: Seq<Tok>, pos: nat) -> bool {
    skip_blank(toks, pos) >= toks.len()
}

/// What a blank token at `pos` means where a form should stand. The token
/// pattern yields a blank token at the end of the text, and before a quote
/// that nothing closes. So where other tokens follow, a string was left
/// open; where none follow and every token is blank, the input was empty;
/// else the form is missing.
pub open spec fn blank_failure(toks: Seq<Tok>, pos: nat) -> ReadFailure {
    if !only_blanks(toks, pos) {
        ReadFailure::Message("unterminated string"@)
    } else if only_blanks(toks, 0) {
        ReadFailure::EmptyInput
    } else {
        ReadFailure::Message("could not read form"@)
    }
}

/// The form that starts at `pos`, and the position after it. A sigil takes
/// the form after it into a list: `'x` is `(quote x)`, `^m x` is
/// `(with-meta x m)`. Comments are passed over.
pub open spec fn read_form_spec(toks: Seq<Tok>, pos: nat) -> (Result<Value, ReadFailure>, nat)
    decreases toks.len() - pos, 0nat,
{
    if pos >= toks.len() {
        (Err(ReadFailure::Message("could not read form"@)), pos)
    } else {
        match toks[pos as int] {
            Tok::Comment(_) => read_form_spec(toks, pos + 1),
            Tok::Close(_) => (Err(ReadFailure::Message("could not read form"@)), pos),
            Tok::Open(b) => match read_seq_spec(toks, pos + 1, b, Seq::empty()) {
                (Ok(items), p) => (close_seq(b, items), p),
                (Err(e), p) => (Err(e), p),
            },
            Tok::Atom(t) => if sigil_name(t) is Some {
                match read_form_spec(toks, pos + 1) {
                    (Ok(v), p) => (Ok(Value::list(seq![Value::symbol(sigil_name(t)->0), v])), p),
                    (Err(e), p) => (Err(e), p),
                }
            } else if t == "^"@ {
                match read_form_spec(toks, pos + 1) {
                    (Ok(meta), p) => if pos < p <= toks.len() {
                        match read_form_spec(toks, p) {
                            (Ok(data), q) => (
                                Ok(Value::list(seq![Value::symbol("with-meta"@), data, meta])),
                                q,
                            ),
                            (Err(e), q) => (Err(e), q),
                        }
                    } else {
                        (Err(ReadFailure::Message("could not read form"@)), p)
                    },
                    (Err(e), p) => (Err(e), p),
                }
            } else if t.len() == 0 {
                (Err(blank_failure(toks, pos)), pos)
            } else {
                (Ok(atom_value(t)), pos + 1)
            },
        }
    }
}

/// The items from `pos` up to the bracket that closes `b`, after `acc`, and
/// the position after that bracket.
pub open spec fn read_seq_spec(toks: Seq<Tok>, pos: nat, b: Bracket, acc: Seq<Value>) -> (
    Result<Seq<Value>, ReadFailure>,
    nat,
)
    decreases toks.len() - pos, 1nat,
{
    if pos >= toks.len() {
        (Err(ReadFailure::Message("did not close seq properly"@)), pos)
    } else {
        match toks[pos as int] {
            Tok::Close(c) => if c == b {
                (Ok(acc), pos + 1)
            } else {
                (Err(ReadFailure::Message("did not close seq properly"@)), pos)
            },
            Tok::Comment(_) => read_seq_spec(toks, pos + 1, b, acc),
            _ => if toks[pos as int] == Tok::Atom(Seq::empty()) {
                if only_blanks(toks, pos) {
                    (Err(ReadFailure::Message("did not close seq properly"@)), pos)
                } else {
                    (Err(ReadFailure::Message("unterminated string"@)), pos)
                }
            } else {
                match read_form_spec(toks, pos) {
                    (Ok(v), p) => if pos < p <= toks.len() {
                        read_seq_spec(toks, p, b, acc.push(v))
                    } else {
                        (Err(ReadFailure::Message("did not close seq properly"@)), p)
                    },
                    (Err(e), p) => (Err(e), p),
                }
            },
        }
    }
}

/// The position of the first token at or after `pos` that is not an empty atom.
pub open spec fn skip_blank(toks: Seq<Tok>, pos: nat) -> nat
    decreases toks.len() - pos,
{
    if pos < toks.len() && toks[pos as int] == Tok::Atom(Seq::empty()) {
        skip_blank(toks, pos + 1)
    } else {
        pos
    }
}

/// What a whole sequence of tokens reads as: its first form, if nothing
/// but blank tokens follows it; where a complete form is followed by more,
/// that is extra input.
pub open spec fn read_tokens_spec(toks: Seq<Tok>) -> Result<Value, ReadFailure> {
    let (result, pos) = read_form_spec(toks, 0);
    let end = skip_blank(toks, pos);
    if result is Err || end >= toks.len() {
        result
    } else {
        Err(ReadFailure::ExtraInput(toks, end as usize))
    }
}

fn message(text: &str) -> (e: ReaderError)
    ensures
        e@ == ReadFailure::Message(text@),
{
    ReaderError::Message(owned(text))
}

/// Reads one form from text.
pub fn read(input: String) -> (r: ReaderResult)
    ensures
        reader_result_view(r) == read_tokens_spec(tokenizer_spec(input@)),
{
    let tokens = tokenizer(input);
    read_tokens(tokens)
}

/// Reads one form from tokens; more than blank tokens after it is an error.
pub fn read_tokens(tokens: Vec<Token>) -> (r: ReaderResult)
    ensures
        reader_result_view(r) == read_tokens_spec(token_views(tokens@)),
{
    let mut reader = Reader::new(tokens);
    let ghost toks = token_views(reader.tokens@);
    let result = read_form(&mut reader);
    let ghost after = reader.position as nat;
    loop
        invariant
            reader.tokens == tokens,
            toks == token_views(reader.tokens@),
            reader.position <= reader.tokens.len(),
            skip_blank(toks, after) == skip_blank(toks, reader.position as nat),
        ensures
            reader.tokens == tokens,
            skip_blank(toks, after) == reader.position as nat,
        decreases reader.tokens.len() - reader.position,
    {
        if reader.position >= reader.tokens.len() {
            break;
        }
        match &reader.tokens[reader.position] {
            Token::Atom(s) => {
                if s.as_str().unicode_len() == 0 {
                    assert(s@ =~= Seq::<char>::empty());
                    reader.position = reader.position + 1;
                } else {
                    break;
                }
            },
            _ => {
                break;
            },
        }
    }
    if result.is_err() || reader.is_empty() {
        result
    } else {
        let (tokens, pos) = reader.extra_input();
        Err(ReaderError::ExtraInput(tokens, pos))
    }
}

/// Whether no token at or after `from` is anything but a blank one.
pub fn rest_is_blank(tokens: &Vec<Token>, from: usize) -> (r: bool)
    ensures
        r == only_blanks(token_views(tokens@), from as nat),
{
    let ghost toks = token_views(tokens@);
    let mut i: usize = from;
    while i < tokens.len()
        invariant
            toks == token_views(tokens@),
            skip_blank(toks, from as nat) == skip_blank(toks, i as nat),
        decreases tokens.len() - i,
    {
        assert(toks[i as int] == tokens@[i as int]@);
        if tokens[i].is_blank() {
            i += 1;
        } else {
            return false;
        }
    }
    true
}

/// The error for a blank token under the cursor where a form should stand.
fn blank_error(reader: &Reader) -> (e: ReaderError)
    ensures
        e@ == blank_failure(token_views(reader.tokens@), reader.position as nat),
{
    if !rest_is_blank(&reader.tokens, reader.position) {
        message("unterminated string")
    } else if rest_is_blank(&reader.tokens, 0) {
        ReaderError::EmptyInput
    } else {
        message("could not read form")
    }
}

/// Reads the form under the cursor.
pub fn read_form(reader: &mut Reader) -> (r: ReaderResult)
    ensures
        final(reader).tokens == old(reader).tokens,
        (reader_result_view(r), final(reader).position as nat) == read_form_spec(
            token_views(old(reader).tokens@),
            old(reader).position as nat,
        ),
        r is Ok ==> old(reader).position < final(reader).position <= old(reader).tokens.len(),
        final(reader).position >= old(reader).position,
        old(reader).position <= old(reader).tokens.len() ==> final(reader).position <= old(
            reader,
        ).tokens.len(),
    decreases old(reader).tokens.len() - old(reader).position, 0nat,
{
    let ghost toks = token_views(reader.tokens@);
    match reader.peek() {
        None => Err(message("could not read form")),
        Some(token) => {
            assert(toks[reader.position as int] == token@);
            match token {
                Token::Comment(_) => {
                    let _ = reader.next();
                    read_form(reader)
                },
                Token::List(Direction::Close) => Err(message("could not read form")),
                Token::Vector(Direction::Close) => Err(message("could not read form")),
                Token::Dict(Direction::Close) => Err(message("could not read form")),
                Token::List(Direction::Open) => read_list(reader),
                Token::Vector(Direction::Open) => read_vector(reader),
                Token::Dict(Direction::Open) => read_map(reader),
                Token::Atom(value) => {
                    match sigil_of(&value) {
                        Some(name) => {
                            let _ = reader.next();
                            match read_form(reader) {
                                Ok(next) => {
                                    let mut seq: Vec<LispValue> = Vec::new();
                                    seq.push(new_symbol(name, None));
                                    seq.push(next);
                                    assert(views(seq@) =~= seq![
                                        Value::symbol(sigil_name(value@)->0),
                                        next@,
                                    ]);
                                    Ok(new_list(seq, None))
                                },
                                Err(e) => Err(e),
                            }
                        },
                        None => {
                            if same_text(value.as_str(), "^") {
                                let _ = reader.next();
                                match read_form(reader) {
                                    Ok(meta) => match read_form(reader) {
                                        Ok(data) => {
                                            let mut seq: Vec<LispValue> = Vec::new();
                                            seq.push(new_symbol("with-meta", None));
                                            seq.push(data);
                                            seq.push(meta);
                                            assert(views(seq@) =~= seq![
                                                Value::symbol("with-meta"@),
                                                data@,
                                                meta@,
                                            ]);
                                            Ok(new_list(seq, None))
                                        },
                                        Err(e) => Err(e),
                                    },
                                    Err(e) => Err(e),
                                }
                            } else if value.as_str().unicode_len() == 0 {
                                Err(blank_error(reader))
                            } else {
                                read_atom(reader)
                            }
                        },
                    }
                },
            }
        },
    }
}

fn sigil_of(t: &String) -> (r: Option<&'static str>)
    ensures
        match r {
            Some(name) => sigil_name(t@) == Some(name@),
            None => sigil_name(t@) is None,
        },
{
    let t = t.as_str();
    if same_text(t, "'") {
        Some("quote")
    } else if same_text(t, "`") {
        Some("quasiquote")
    } else if same_text(t, "~") {
        Some("unquote")
    } else if same_text(t, "~@") {
        Some("splice-unquote")
    } else if same_text(t, "@") {
        Some("deref")
    } else {
        None
    }
}

fn bracket_closes(token: &Token, b: &Bracket) -> (r: Option<bool>)
    ensures
        match r {
            Some(same) => token@ matches Tok::Close(c) && same == (c == *b),
            None => !(token@ is Close),
        },
{
    match token {
        Token::List(Direction::Close) => Some(
            match b {
                Bracket::List => true,
                _ => false,
            },
        ),
        Token::Vector(Direction::Close) => Some(
            match b {
                Bracket::Vector => true,
                _ => false,
            },
        ),
        Token::Dict(Direction::Close) => Some(
            match b {
                Bracket::Dict => true,
                _ => false,
            },
        ),
        _ => None,
    }
}

/// The model of a result that holds a sequence of values.
pub open spec fn seq_result_view(r: Result<Vec<LispValue>, ReaderError>) -> Result<
    Seq<Value>,
    ReadFailure,
> {
    match r {
        Ok(v) => Ok(views(v@)),
        Err(e) => Err(e@),
    }
}

/// Reads the items after an opening bracket, up to the bracket that closes it.
fn read_seq(reader: &mut Reader, b: Bracket) -> (r: Result<Vec<LispValue>, ReaderError>)
    requires
        old(reader).position < old(reader).tokens.len(),
    ensures
        final(reader).tokens == old(reader).tokens,
        (seq_result_view(r), final(reader).position as nat) == read_seq_spec(
            token_views(old(reader).tokens@),
            old(reader).position as nat + 1,
            b,
            Seq::empty(),
        ),
        old(reader).position < final(reader).position <= old(reader).tokens.len(),
    decreases old(reader).tokens.len() - old(reader).position - 1, 2nat,
{
    let _ = reader.next();
    let ghost toks = token_views(reader.tokens@);
    let ghost start = reader.position as nat;
    let mut seq: Vec<LispValue> = Vec::new();
    assert(views(seq@) =~= Seq::<Value>::empty());
    loop
        invariant
            reader.tokens == old(reader).tokens,
            toks == token_views(reader.tokens@),
            start == old(reader).position + 1,
            start <= reader.position <= reader.tokens.len(),
            read_seq_spec(toks, start, b, Seq::empty()) == read_seq_spec(
                toks,
                reader.position as nat,
                b,
                views(seq@),
            ),
        decreases reader.tokens.len() - reader.position,
    {
        match reader.peek() {
            None => {
                return Err(message("did not close seq properly"));
            },
            Some(token) => {
                assert(toks[reader.position as int] == token@);
                match bracket_closes(&token, &b) {
                    Some(true) => {
                        let _ = reader.next();
                        return Ok(seq);
                    },
                    Some(false) => {
                        return Err(message("did not close seq properly"));
                    },
                    None => {
                        let blank = token.is_blank();
                        match token {
                            Token::Comment(_) => {
                                let _ = reader.next();
                            },
                            _ => {
                                if blank {
                                    if rest_is_blank(&reader.tokens, reader.position) {
                                        return Err(message("did not close seq properly"));
                                    } else {
                                        return Err(message("unterminated string"));
                                    }
                                }
                                match read_form(reader) {
                                    Ok(form) => {
                                        proof {
                                            views_push(seq@, form);
                                        }
                                        seq.push(form);
                                    },
                                    Err(e) => {
                                        return Err(e);
                                    },
                                }
                            },
                        }
                    },
                }
            },
        }
    }
}

/// Reads a list: the cursor stands on its opening bracket.
fn read_list(reader: &mut Reader) -> (r: ReaderResult)
    requires
        old(reader).position < old(reader).tokens.len(),
    ensures
        final(reader).tokens == old(reader).tokens,
        (reader_result_view(r), final(reader).position as nat) == (match read_seq_spec(
            token_views(old(reader).tokens@),
            old(reader).position as nat + 1,
            Bracket::List,
            Seq::empty(),
        ) {
            (Ok(items), p) => (close_seq(Bracket::List, items), p),
            (Err(e), p) => (Err(e), p),
        }),
        old(reader).position < final(reader).position <= old(reader).tokens.len(),
    decreases old(reader).tokens.len() - old(reader).position - 1, 3nat,
{
    match read_seq(reader, Bracket::List) {
        Ok(seq) => Ok(new_list(seq, None)),
        Err(e) => Err(e),
    }
}

/// Reads a vector: the cursor stands on its opening bracket.
fn read_vector(reader: &mut Reader) -> (r: ReaderResult)
    requires
        old(reader).position < old(reader).tokens.len(),
    ensures
        final(reader).tokens == old(reader).tokens,
        (reader_result_view(r), final(reader).position as nat) == (match read_seq_spec(
            token_views(old(reader).tokens@),
            old(reader).position as nat + 1,
            Bracket::Vector,
            Seq::empty(),
        ) {
            (Ok(items), p) => (close_seq(Bracket::Vector, items), p),
            (Err(e), p) => (Err(e), p),
        }),
        old(reader).position < final(reader).position <= old(reader).tokens.len(),
    decreases old(reader).tokens.len() - old(reader).position - 1, 3nat,
{
    match read_seq(reader, Bracket::Vector) {
        Ok(seq) => Ok(new_vector(seq, None)),
        Err(e) => Err(e),
    }
}

/// Reads a map: the cursor stands on its opening bracket.
fn read_map(reader: &mut Reader) -> (r: ReaderResult)
    requires
        old(reader).position < old(reader).tokens.len(),
    ensures
        final(reader).tokens == old(reader).tokens,
        (reader_result_view(r), final(reader).position as nat) == (match read_seq_spec(
            token_views(old(reader).tokens@),
            old(reader).position as nat + 1,
            Bracket::Dict,
            Seq::empty(),
        ) {
            (Ok(items), p) => (close_seq(Bracket::Dict, items), p),
            (Err(e), p) => (Err(e), p),
        }),
        old(reader).position < final(reader).position <= old(reader).tokens.len(),
    decreases old(reader).tokens.len() - old(reader).position - 1, 3nat,
{
    match read_seq(reader, Bracket::Dict) {
        Ok(seq) => match new_map_from_seq(seq) {
            Ok(map) => Ok(map),
            Err(EvaluationError::Message(s)) => Err(ReaderError::Message(s)),
            Err(_) => Err(message("could not read map")),
        },
        Err(e) => Err(e),
    }
}

/// What reading an atom at `pos` gives, and the position after it.
pub open spec fn read_atom_spec(toks: Seq<Tok>, pos: nat) -> (Result<Value, ReadFailure>, nat) {
    if pos >= toks.len() {
        (Err(ReadFailure::Message("error missing tokens"@)), pos)
    } else {
        match toks[pos as int] {
            Tok::Atom(t) => (Ok(atom_value(t)), pos + 1),
            _ => (
                Err(ReadFailure::Message("reader: trying to get atom from non-atom token"@)),
                pos + 1,
            ),
        }
    }
}

/// Reads the atom under the cursor and moves past it.
pub fn read_atom(reader: &mut Reader) -> (r: ReaderResult)
    ensures
        final(reader).tokens == old(reader).tokens,
        (reader_result_view(r), final(reader).position as nat) == read_atom_spec(
            token_views(old(reader).tokens@),
            old(reader).position as nat,
        ),
{
    match reader.next() {
        None => Err(message("error missing tokens")),
        Some(token) => match token {
            Token::Atom(s) => {
                let s = s.as_str();
                match nil_from(s) {
                    Ok(v) => Ok(v),
                    Err(_) => match boolean_from(s) {
                        Ok(v) => Ok(v),
                        Err(_) => match number_from(s) {
                            Ok(v) => Ok(v),
                            Err(_) => match keyword_from(s) {
                                Ok(v) => Ok(v),
                                Err(_) => match string_from(s) {
                                    Ok(v) => Ok(v),
                                    Err(_) => symbol_from(s),
                                },
                            },
                        },
                    },
                }
            },
            _ => Err(message("reader: trying to get atom from non-atom token")),
        },
    }
}

/// `nil`, where the token is that word.
pub fn nil_from(token: &str) -> (r: ReaderResult)
    ensures
        reader_result_view(r) == (if token@ == "nil"@ {
            Ok::<Value, ReadFailure>(Value::Nil)
        } else {
            Err(ReadFailure::Message("could not parse nil"@))
        }),
{
    if same_text(token, "nil") {
        Ok(new_nil())
    } else {
        Err(message("could not parse nil"))
    }
}

/// A boolean, where the token is `true` or `false`.
pub fn boolean_from(token: &str) -> (r: ReaderResult)
    ensures
        reader_result_view(r) == (if token@ == "true"@ {
            Ok::<Value, ReadFailure>(Value::Boolean(true))
        } else if token@ == "false"@ {
            Ok(Value::Boolean(false))
        } else {
            Err(ReadFailure::Message("could not parse boolean from this token"@))
        }),
{
    if same_text(token, "true") {
        Ok(new_boolean(true))
    } else if same_text(token, "false") {
        Ok(new_boolean(false))
    } else {
        Err(message("could not parse boolean from this token"))
    }
}

/// A number, where the token is a decimal numeral within range.
pub fn number_from(token: &str) -> (r: ReaderResult)
    ensures
        reader_result_view(r) == (match parse_int(token@) {
            Some(n) => Ok::<Value, ReadFailure>(Value::Number(n)),
            None => Err(ReadFailure::Message("could not parse number from this token"@)),
        }),
{
    let chars = to_chars(token);
    match parse_number(&chars) {
        Some(n) => Ok(new_number(n)),
        None => Err(message("could not parse number from this token")),
    }
}

/// A keyword, where the token begins with a colon.
pub fn keyword_from(token: &str) -> (r: ReaderResult)
    ensures
        reader_result_view(r) == (if token@.len() > 0 && token@[0] == ':' {
            Ok::<Value, ReadFailure>(Value::Keyword(token@))
        } else {
            Err(ReadFailure::Message("could not parse keyword properly"@))
        }),
{
    if token.unicode_len() > 0 && token.get_char(0) == ':' {
        Ok(new_keyword(token))
    } else {
        Err(message("could not parse keyword properly"))
    }
}

/// A string, where the token has a quote at each end.
pub fn string_from(token: &str) -> (r: ReaderResult)
    ensures
        reader_result_view(r) == (if is_string_token(token@) {
            Ok::<Value, ReadFailure>(
                Value::String(read_str_spec(token@.subrange(1, token@.len() - 1))),
            )
        } else {
            Err(ReadFailure::Message("could not produce a string for this token"@))
        }),
{
    let chars = to_chars(token);
    let n = chars.len();
    if n >= 2 && chars[0] == '"' && chars[n - 1] == '"' {
        let inner = crate::text::from_chars_range(&chars, 1, n - 1);
        let s = read_str(inner.as_str());
        Ok(new_string(s.as_str()))
    } else {
        Err(message("could not produce a string for this token"))
    }
}

/// The string that the inside of a literal stands for: `\"` is a quote,
/// `\n` a newline, `\\` a backslash.
pub fn read_str(s: &str) -> (r: String)
    ensures
        r@ == read_str_spec(s@),
{
    let chars = to_chars(s);
    let mut out: Vec<char> = Vec::new();
    let mut i: usize = 0;
    while i < chars.len()
        invariant
            i <= chars.len(),
            chars@ == s@,
            read_str_spec(s@) == unescape_from(s@, i as nat, out@),
        decreases chars.len() - i,
    {
        let c = chars[i];
        if c == '\\' && i + 1 < chars.len() {
            let d = chars[i + 1];
            if d == 'n' {
                out.push('\n');
                i += 2;
            } else if d == '"' {
                out.push('"');
                i += 2;
            } else if d == '\\' {
                out.push('\\');
                i += 2;
            } else {
                out.push(c);
                i += 1;
            }
        } else {
            out.push(c);
            i += 1;
        }
    }
    from_chars(&out)
}

/// A symbol with the token as its name: every token can be one.
pub fn symbol_from(token: &str) -> (r: ReaderResult)
    ensures
        reader_result_view(r) == Ok::<Value, ReadFailure>(Value::symbol(token@)),
{
    Ok(new_symbol(token, None))
}

} // verus!
