use vstd::prelude::*;
use crate::sexpr::SExpr;

verus! {

/// Why reading an expression failed.
#[derive(Debug)]
pub enum ParseError {
    /// The input ended before an expression started.
    Eof,
    /// The input ended inside a string literal.
    UnclosedString,
    /// The input ended inside a list.
    UnclosedList,
    /// A backslash followed by a character that names no escape.
    UnknownEscape(char),
    /// An identifier that is only the variadic marker.
    EmptyIdentifier,
    /// A token that is neither a boolean, a number nor an identifier.
    InvalidIdentifier(String),
    /// A closing bracket where an expression should start.
    NoAtom,
}

/// Recognises number literals for the parser.
pub trait NumberReader {
    /// The IEEE-754 binary64 bits of the number that `token` spells, if it
    /// spells one.
    fn read_number(&self, token: &String) -> Option<u64>;
}

/// Unicode white space, the characters of the `White_Space` property.
pub open spec fn is_space(c: char) -> bool {
    ||| ('\u{9}' <= c && c <= '\u{d}')
    ||| c == ' '
    ||| c == '\u{85}'
    ||| c == '\u{a0}'
    ||| c == '\u{1680}'
    ||| ('\u{2000}' <= c && c <= '\u{200a}')
    ||| c == '\u{2028}'
    ||| c == '\u{2029}'
    ||| c == '\u{202f}'
    ||| c == '\u{205f}'
    ||| c == '\u{3000}'
}

/// Whether `c` is white space.
pub fn is_whitespace(c: char) -> (r: bool)
    ensures
        r == is_space(c),
{
    ('\u{9}' <= c && c <= '\u{d}') || c == ' ' || c == '\u{85}' || c == '\u{a0}' || c == '\u{1680}'
        || ('\u{2000}' <= c && c <= '\u{200a}') || c == '\u{2028}' || c == '\u{2029}' || c
        == '\u{202f}' || c == '\u{205f}' || c == '\u{3000}'
}

/// Characters that may continue an atom: anything but a bracket.
pub open spec fn is_atom_char(c: char) -> bool {
    c != '(' && c != '[' && c != ')' && c != ']'
}

pub fn is_valid_atom(c: char) -> (r: bool)
    ensures
        r == is_atom_char(c),
{
    c != '(' && c != '[' && c != ')' && c != ']'
}

/// Characters that an identifier is made of.
pub open spec fn is_ident_char(c: char) -> bool {
    ||| c == '-' || c == '_' || c == '+' || c == '/' || c == '*' || c == '%'
    ||| c == '>' || c == '<' || c == '=' || c == '?' || c == '!' || c == '&'
    ||| c == '$' || c == '.' || c == '#' || c == ':' || c == '\u{3bb}'
    ||| ('a' <= c && c <= 'z')
    ||| ('A' <= c && c <= 'Z')
    ||| ('0' <= c && c <= '9')
}

pub fn is_valid_ident(c: char) -> (r: bool)
    ensures
        r == is_ident_char(c),
{
    c == '-' || c == '_' || c == '+' || c == '/' || c == '*' || c == '%' || c == '>' || c == '<'
        || c == '=' || c == '?' || c == '!' || c == '&' || c == '$' || c == '.' || c == '#' || c
        == ':' || c == '\u{3bb}' || ('a' <= c && c <= 'z') || ('A' <= c && c <= 'Z') || ('0' <= c
        && c <= '9')
}

/// The character that the escape `\c` stands for inside a string literal.
pub open spec fn escaped(c: char) -> Option<char> {
    if c == 'n' {
        Some('\n')
    } else if c == 'r' {
        Some('\r')
    } else if c == 't' {
        Some('\t')
    } else if c == '"' {
        Some('"')
    } else if c == '0' {
        Some('\0')
    } else if c == '\\' {
        Some('\\')
    } else {
        None
    }
}

/// The contents of a string literal whose opening quote has been read:
/// the characters up to the closing quote with escapes replaced, and how
/// many input characters that takes, closing quote included.
pub open spec fn string_body(s: Seq<char>) -> Result<(Seq<char>, int), ParseError>
    decreases s.len(),
{
    if s.len() == 0 {
        Err(ParseError::UnclosedString)
    } else if s[0] == '"' {
        Ok((Seq::empty(), 1))
    } else if s[0] == '\\' {
        if s.len() == 1 {
            Err(ParseError::UnclosedString)
        } else {
            match escaped(s[1]) {
                Some(e) => match string_body(s.subrange(2, s.len() as int)) {
                    Ok((b, n)) => Ok((seq![e] + b, n + 2)),
                    Err(err) => Err(err),
                },
                None => Err(ParseError::UnknownEscape(s[1])),
            }
        }
    } else {
        match string_body(s.subrange(1, s.len() as int)) {
            Ok((b, n)) => Ok((seq![s[0]] + b, n + 1)),
            Err(err) => Err(err),
        }
    }
}

/// The outcome of a string literal whose first `i` characters have been read
/// into `buf`, with `rest` still to read.
pub open spec fn resume(buf: Seq<char>, i: int, rest: Result<(Seq<char>, int), ParseError>) -> Result<
    (Seq<char>, int),
    ParseError,
> {
    match rest {
        Ok((b, n)) => Ok((buf + b, i + n)),
        Err(err) => Err(err),
    }
}

/// The length of the longest prefix of `s` made of atom characters that are
/// not white space.
pub open spec fn atom_len(s: Seq<char>) -> nat
    decreases s.len(),
{
    if s.len() == 0 || !is_atom_char(s[0]) || is_space(s[0]) {
        0
    } else {
        1 + atom_len(s.subrange(1, s.len() as int))
    }
}

/// Reads symbolic expressions from a sequence of characters.
pub struct Parser {
    input: Vec<char>,
    pos: usize,
}

impl Parser {
    pub closed spec fn wf(&self) -> bool {
        self.pos <= self.input@.len()
    }

    /// What is left to read.
    pub closed spec fn rest(&self) -> Seq<char> {
        self.input@.subrange(self.pos as int, self.input@.len() as int)
    }

    pub fn new(input: Vec<char>) -> (r: Parser)
        ensures
            r.wf(),
            r.rest() == input@,
    {
        let r = Parser { input, pos: 0 };
        assert(r.rest() =~= r.input@);
        r
    }

    /// The next character, consumed.
    fn next_char(&mut self) -> (r: Option<char>)
        requires
            old(self).wf(),
        ensures
            final(self).wf(),
            final(self).input == old(self).input,
            old(self).rest().len() == 0 ==> r is None && final(self).pos == old(self).pos,
            old(self).rest().len() > 0 ==> r == Some(old(self).rest()[0]) && final(self).pos
                == old(self).pos + 1,
            final(self).rest() == if old(self).rest().len() == 0 {
                old(self).rest()
            } else {
                old(self).rest().subrange(1, old(self).rest().len() as int)
            },
    {
        if self.pos < self.input.len() {
            let c = self.input[self.pos];
            self.pos = self.pos + 1;
            assert(self.rest() =~= old(self).rest().subrange(1, old(self).rest().len() as int));
            Some(c)
        } else {
            None
        }
    }

    /// The next character, not consumed.
    pub fn peak_char(&self) -> (r: Option<char>)
        requires
            self.wf(),
        ensures
            self.rest().len() == 0 ==> r is None,
            self.rest().len() > 0 ==> r == Some(self.rest()[0]),
    {
        if self.pos < self.input.len() {
            Some(self.input[self.pos])
        } else {
            None
        }
    }

    /// Gives back the character just read.
    fn undo_char(&mut self)
        requires
            old(self).wf(),
            old(self).pos > 0,
        ensures
            final(self).wf(),
            final(self).input == old(self).input,
            final(self).pos == old(self).pos - 1,
    {
        self.pos = self.pos - 1;
    }

    /// Skips white space.
    fn skip_whitespace(&mut self)
        requires
            old(self).wf(),
        ensures
            final(self).wf(),
            final(self).input == old(self).input,
            old(self).pos <= final(self).pos,
            forall|j: int| old(self).pos <= j < final(self).pos ==> is_space(#[trigger] old(self).input@[j]),
            final(self).rest().len() > 0 ==> !is_space(final(self).rest()[0]),
    {
        while self.pos < self.input.len() && is_whitespace(self.input[self.pos])
            invariant
                self.wf(),
                self.input == old(self).input,
                old(self).pos <= self.pos,
                forall|j: int| old(self).pos <= j < self.pos ==> is_space(#[trigger] old(self).input@[j]),
            decreases self.input@.len() - self.pos,
        {
            self.pos = self.pos + 1;
        }
    }

    /// Skips the rest of a line, its line break included.
    fn skip_to_linebreak(&mut self)
        requires
            old(self).wf(),
        ensures
            final(self).wf(),
            final(self).input == old(self).input,
            old(self).pos <= final(self).pos,
    {
        loop
            invariant
                self.wf(),
                self.input == old(self).input,
                old(self).pos <= self.pos,
            decreases self.input@.len() - self.pos,
        {
            if self.pos >= self.input.len() {
                break;
            }
            let c = self.input[self.pos];
            self.pos = self.pos + 1;
            if c == '\n' {
                break;
            }
        }
    }

    /// The longest run of atom characters that are not white space, or `None`
    /// when there is none.
    fn read_atom(&mut self) -> (r: Option<String>)
        requires
            old(self).wf(),
        ensures
            final(self).wf(),
            final(self).input == old(self).input,
            final(self).pos == old(self).pos + atom_len(old(self).rest()),
            atom_len(old(self).rest()) == 0 ==> r is None,
            atom_len(old(self).rest()) > 0 ==> (r matches Some(s) && s@ == old(self).rest().subrange(
                0,
                atom_len(old(self).rest()) as int,
            )),
    {
        let ghost start = self.pos as int;
        let ghost all = old(self).rest();
        let mut buf = String::new();
        let mut n: usize = 0;
        while self.pos < self.input.len() && is_valid_atom(self.input[self.pos]) && !is_whitespace(
            self.input[self.pos],
        )
            invariant
                self.wf(),
                self.input == old(self).input,
                all == old(self).rest(),
                start == old(self).pos,
                self.pos == start + n,
                buf@ == all.subrange(0, n as int),
                atom_len(all) == n + atom_len(self.rest()),
            decreases self.input@.len() - self.pos,
        {
            let c = self.input[self.pos];
            let ghost r0 = self.rest();
            assert(r0[0] == c);
            assert(r0.subrange(1, r0.len() as int) =~= self.input@.subrange(self.pos + 1, self.input@.len() as int));
            let mut one = String::new();
            one.append(char_str(c).as_str());
            buf.append(one.as_str());
            self.pos = self.pos + 1;
            n = n + 1;
            assert(buf@ =~= all.subrange(0, n as int));
        }
        assert(atom_len(self.rest()) == 0);
        if n == 0 {
            None
        } else {
            Some(buf)
        }
    }

    /// Reads a string literal whose opening quote has been read.
    fn parse_str(&mut self) -> (r: Result<SExpr, ParseError>)
        requires
            old(self).wf(),
        ensures
            final(self).wf(),
            final(self).input == old(self).input,
            old(self).pos <= final(self).pos,
            r is Ok ==> old(self).pos < final(self).pos,
            match string_body(old(self).rest()) {
                Ok((b, n)) => r matches Ok(SExpr::Str(s)) && s@ == b && final(self).pos == old(self).pos + n,
                Err(err) => r == Err::<SExpr, ParseError>(err),
            },
    {
        let ghost all = old(self).rest();
        let ghost start = self.pos as int;
        let mut buf = String::new();
        loop
            invariant
                self.wf(),
                self.input == old(self).input,
                all == old(self).rest(),
                start == old(self).pos,
                start <= self.pos,
                self.rest() == all.subrange(self.pos - start, all.len() as int),
                string_body(all) == resume(buf@, self.pos - start, string_body(self.rest())),
            decreases self.input@.len() - self.pos,
        {
            let ghost r0 = self.rest();
            match self.next_char() {
                None => {
                    return Err(ParseError::UnclosedString);
                },
                Some(c) => {
                    if c == '"' {
                        assert(string_body(r0) == Ok::<(Seq<char>, int), ParseError>((Seq::empty(), 1)));
                        assert(buf@ + Seq::<char>::empty() =~= buf@);
                        return Ok(SExpr::Str(buf));
                    } else if c == '\\' {
                        match self.next_char() {
                            None => {
                                return Err(ParseError::UnclosedString);
                            },
                            Some(d) => {
                                let e = match escape_of(d) {
                                    Some(e) => e,
                                    None => {
                                        return Err(ParseError::UnknownEscape(d));
                                    },
                                };
                                let ghost b0 = buf@;
                                buf.append(char_str(e).as_str());
                                assert(self.rest() =~= r0.subrange(2, r0.len() as int));
                                assert(forall|x: Seq<char>| #[trigger] (b0 + (seq![e] + x)) =~= buf@ + x);
                            },
                        }
                    } else {
                        let ghost b0 = buf@;
                        buf.append(char_str(c).as_str());
                        assert(forall|x: Seq<char>| #[trigger] (b0 + (seq![c] + x)) =~= buf@ + x);
                    }
                    assert(self.rest() == all.subrange(self.pos - start, all.len() as int)) by {
                        assert(self.rest() =~= all.subrange(self.pos - start, all.len() as int));
                    }
                },
            }
        }
    }

    /// Reads an atom: a boolean, a number that `nums` recognises, or an
    /// identifier, whose trailing `...` is the variadic marker.
    fn parse_atom<N: NumberReader>(&mut self, nums: &N) -> (r: Result<SExpr, ParseError>)
        requires
            old(self).wf(),
        ensures
            final(self).wf(),
            final(self).input == old(self).input,
            final(self).pos == old(self).pos + atom_len(old(self).rest()),
            atom_len(old(self).rest()) == 0 ==> r == Err::<SExpr, ParseError>(ParseError::NoAtom),
            r matches Ok(SExpr::Ident(s, _)) ==> s@.len() > 0 && forall|i: int|
                0 <= i < s@.len() ==> is_ident_char(#[trigger] s@[i]),
    {
        let atom = self.read_atom();
        match atom {
            None => Err(ParseError::NoAtom),
            Some(s) => {
                if s.eq(&String::from_str("#t")) || s.eq(&String::from_str("true")) {
                    return Ok(SExpr::Bool(true));
                }
                if s.eq(&String::from_str("#f")) || s.eq(&String::from_str("false")) {
                    return Ok(SExpr::Bool(false));
                }
                match nums.read_number(&s) {
                    Some(bits) => {
                        return Ok(SExpr::Num(bits));
                    },
                    None => {},
                }
                identifier(s)
            },
        }
    }

    /// Reads the elements of a list whose opening bracket has been read, up
    /// to the bracket `close`.
    fn parse_list<N: NumberReader>(&mut self, close: char, nums: &N) -> (r: Result<SExpr, ParseError>)
        requires
            old(self).wf(),
        ensures
            final(self).wf(),
            final(self).input == old(self).input,
            old(self).pos <= final(self).pos,
            r is Ok ==> old(self).pos < final(self).pos,
        decreases old(self).input@.len() - old(self).pos, 2int,
    {
        let ghost start_pos = self.pos;
        let mut buf: Vec<SExpr> = Vec::new();
        loop
            invariant
                self.wf(),
                self.input == old(self).input,
                start_pos == old(self).pos,
                start_pos <= self.pos,
            decreases self.input@.len() - self.pos,
        {
            match self.next_char() {
                None => {
                    return Err(ParseError::UnclosedList);
                },
                Some(c) => {
                    if c == close {
                        return Ok(SExpr::List(buf));
                    } else if !is_whitespace(c) {
                        self.undo_char();
                        match self.parse_inner(nums) {
                            Ok(e) => buf.push(e),
                            Err(err) => {
                                return Err(err);
                            },
                        }
                    }
                },
            }
        }
    }

    /// Reads the next expression. The input running out before an
    /// expression starts gives `ParseError::Eof`.
    pub fn parse<N: NumberReader>(&mut self, nums: &N) -> (r: Result<SExpr, ParseError>)
        requires
            old(self).wf(),
        ensures
            final(self).wf(),
            final(self).rest().len() <= old(self).rest().len(),
            final(self).rest() == old(self).rest().subrange(
                old(self).rest().len() - final(self).rest().len(),
                old(self).rest().len() as int,
            ),
            r is Ok ==> final(self).rest().len() < old(self).rest().len(),
    {
        let r = self.parse_inner(nums);
        assert(self.rest() =~= old(self).rest().subrange(
            old(self).rest().len() - self.rest().len(),
            old(self).rest().len() as int,
        ));
        r
    }

    fn parse_inner<N: NumberReader>(&mut self, nums: &N) -> (r: Result<SExpr, ParseError>)
        requires
            old(self).wf(),
        ensures
            final(self).wf(),
            final(self).input == old(self).input,
            old(self).pos <= final(self).pos,
            r is Ok ==> old(self).pos < final(self).pos,
        decreases old(self).input@.len() - old(self).pos, 1int,
    {
        self.skip_whitespace();
        let ghost atom_pos = self.pos;
        match self.next_char() {
            None => Err(ParseError::Eof),
            Some(c) => {
                if c == ';' {
                    self.skip_to_linebreak();
                    self.parse_inner(nums)
                } else if c == '\'' {
                    match self.parse_inner(nums) {
                        Ok(e) => Ok(SExpr::Quote(Box::new(e))),
                        Err(err) => Err(err),
                    }
                } else if c == '(' {
                    self.parse_list(')', nums)
                } else if c == '[' {
                    self.parse_list(']', nums)
                } else if c == '"' {
                    self.parse_str()
                } else {
                    self.undo_char();
                    let r = self.parse_atom(nums);
                    proof {
                        if r is Ok {
                            assert(atom_len(self.input@.subrange(atom_pos as int, self.input@.len() as int)) > 0);
                        }
                    }
                    r
                }
            },
        }
    }

    /// Reads every expression up to the end of the input, or the first failure.
    pub fn parse_all<N: NumberReader>(&mut self, nums: &N) -> (r: Result<Vec<SExpr>, ParseError>)
        requires
            old(self).wf(),
        ensures
            final(self).wf(),
    {
        let mut results: Vec<SExpr> = Vec::new();
        loop
            invariant
                self.wf(),
            decreases self.rest().len(),
        {
            match self.parse(nums) {
                Ok(e) => results.push(e),
                Err(ParseError::Eof) => {
                    return Ok(results);
                },
                Err(err) => {
                    return Err(err);
                },
            }
        }
    }
}

/// The character that the escape `\c` stands for.
fn escape_of(c: char) -> (r: Option<char>)
    ensures
        r == escaped(c),
{
    if c == 'n' {
        Some('\n')
    } else if c == 'r' {
        Some('\r')
    } else if c == 't' {
        Some('\t')
    } else if c == '"' {
        Some('"')
    } else if c == '0' {
        Some('\0')
    } else if c == '\\' {
        Some('\\')
    } else {
        None
    }
}

/// The string of one character.
fn char_str(c: char) -> (r: String)
    ensures
        r@ == seq![c],
{
    let v: Vec<char> = vec![c];
    chars_to_string(&v)
}

/// The identifier that an atom spells: its characters must all be identifier
/// characters, and a trailing `...` marks it variadic.
pub fn identifier(s: String) -> (r: Result<SExpr, ParseError>)
    ensures
        r matches Ok(SExpr::Ident(n, _)) ==> n@.len() > 0 && forall|i: int|
            0 <= i < n@.len() ==> is_ident_char(#[trigger] n@[i]),
        (forall|i: int| 0 <= i < s@.len() ==> is_ident_char(#[trigger] s@[i])) ==> match r {
            Ok(SExpr::Ident(n, v)) => v == ends_with_ellipsis(s@) && n@ == strip_ellipsis(s@),
            Err(e) => e is EmptyIdentifier && strip_ellipsis(s@).len() == 0,
            _ => false,
        },
        !(forall|i: int| 0 <= i < s@.len() ==> is_ident_char(#[trigger] s@[i])) ==> r is Err,
{
    let t = s.as_str();
    let n = t.unicode_len();
    let mut i: usize = 0;
    while i < n
        invariant
            i <= n == s@.len(),
            t@ == s@,
            forall|j: int| 0 <= j < i ==> is_ident_char(#[trigger] s@[j]),
        decreases n - i,
    {
        if !is_valid_ident(t.get_char(i)) {
            return Err(ParseError::InvalidIdentifier(s));
        }
        i = i + 1;
    }
    let variadic = n >= 3 && t.get_char(n - 1) == '.' && t.get_char(n - 2) == '.' && t.get_char(n - 3) == '.';
    let name_len = if variadic { n - 3 } else { n };
    if name_len == 0 {
        return Err(ParseError::EmptyIdentifier);
    }
    let name = String::from_str(t.substring_char(0, name_len));
    Ok(SExpr::Ident(name, variadic))
}

/// Whether `s` ends with the variadic marker `...`.
pub open spec fn ends_with_ellipsis(s: Seq<char>) -> bool {
    s.len() >= 3 && s[s.len() - 1] == '.' && s[s.len() - 2] == '.' && s[s.len() - 3] == '.'
}

/// `s` without a trailing variadic marker.
pub open spec fn strip_ellipsis(s: Seq<char>) -> Seq<char> {
    if ends_with_ellipsis(s) {
        s.subrange(0, s.len() - 3)
    } else {
        s
    }
}

/// Relies on `String: FromIterator<char>`: the string of the characters, in order.
#[verifier::external_body]
fn chars_to_string(v: &Vec<char>) -> (r: String)
    ensures
        r@ == v@,
{
    v.iter().collect()
}

} // verus!
