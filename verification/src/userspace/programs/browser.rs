//! A small web browser: an HTML parser and a text renderer.
use vstd::prelude::*;
use crate::chars::{char_is_alphanumeric, char_is_whitespace, unicode_alphanumeric};
use crate::text::{chars_to_string, push_str, str_to_chars};
use crate::words::{first_non_ws, lemma_first, trim, trim_chars};

verus! {

/// An HTML element as the parser sees it.
pub enum Node {
    /// Text
    Text(Seq<char>),
    /// Element with its tag name, attributes and children
    Tag { name: Seq<char>, attributes: Seq<(Seq<char>, Seq<char>)>, children: Seq<Node> },
}

/// The character at `p`, if any.
pub open spec fn peek_at(s: Seq<char>, p: nat) -> Option<char> {
    if p < s.len() { Some(s[p as int]) } else { None }
}

/// End of the run of name characters from `p`: letters, digits and `-`, and `_` where
/// `underscore` holds.
pub open spec fn name_end(s: Seq<char>, p: nat, underscore: bool) -> nat
    decreases s.len() - p,
{
    if p < s.len() && (unicode_alphanumeric(s[p as int]) || s[p as int] == '-' || (underscore && s[p as int] == '_')) {
        name_end(s, p + 1, underscore)
    } else {
        p
    }
}

/// End of the text from `p`: the next `<` or the end.
pub open spec fn text_end(s: Seq<char>, p: nat) -> nat
    decreases s.len() - p,
{
    if p < s.len() && s[p as int] != '<' { text_end(s, p + 1) } else { p }
}

/// Position of the first `q` at or after `p`, if any.
pub open spec fn quote_end(s: Seq<char>, p: nat, q: char) -> Option<nat>
    decreases s.len() - p,
{
    if p >= s.len() {
        None
    } else if s[p as int] == q {
        Some(p)
    } else {
        quote_end(s, p + 1, q)
    }
}

/// Debug text of a character, as `{:?}` prints it.
pub uninterp spec fn char_debug(c: char) -> Seq<char>;

/// `format!("{:?}", c)` on a character: the quoted, escaped character; a printable ASCII
/// character other than a quote or a backslash is just quoted.
#[verifier::external_body]
fn char_debug_text(c: char) -> (r: String)
    ensures
        r@ == char_debug(c),
        ' ' <= c <= '~' && c != '\'' && c != '\\' ==> r@ == seq!['\'', c, '\''],
{
    format!("{:?}", c)
}

/// Debug text of an optional character.
pub open spec fn option_debug(c: Option<char>) -> Seq<char> {
    match c {
        Some(c) => "Some("@ + char_debug(c) + ")"@,
        None => "None"@,
    }
}

/// Message for a missing expected character.
pub open spec fn expect_error(expected: char, got: Option<char>) -> Seq<char> {
    "Expected '"@ + seq![expected] + "', got "@ + option_debug(got)
}

/// Message for a closing tag that does not match.
pub open spec fn mismatch_error(name: Seq<char>, closing: Seq<char>) -> Seq<char> {
    "Mismatched closing tag: expected </"@ + name + ">, got </"@ + closing + ">"@
}

/// A quoted attribute value at `p`: the value and the position after the closing quote.
pub open spec fn parse_value(s: Seq<char>, p: nat) -> Result<(Seq<char>, nat), Seq<char>> {
    match peek_at(s, p) {
        Some(c) => if c == '"' || c == '\'' {
            match quote_end(s, p + 1, c) {
                Some(e) => Ok((s.subrange(p + 1int, e as int), e + 1)),
                None => Err("Unterminated attribute value"@),
            }
        } else {
            Err("Expected quoted attribute value"@)
        },
        None => Err("Expected quoted attribute value"@),
    }
}

/// Attributes from `p` on, after those in `acc`, up to a `>` or `/`: the attributes and the
/// position of that character.
pub open spec fn parse_attrs(s: Seq<char>, p: nat, acc: Seq<(Seq<char>, Seq<char>)>)
    -> Result<(Seq<(Seq<char>, Seq<char>)>, nat), Seq<char>>
    decreases s.len() - p,
{
    let q = first_non_ws(s, p);
    if q < s.len() && (s[q as int] == '>' || s[q as int] == '/') {
        Ok((acc, q))
    } else {
        let n = name_end(s, q, true);
        if n == q {
            Err("Expected attribute name"@)
        } else {
            let name = s.subrange(q as int, n as int);
            let r = first_non_ws(s, n);
            proof {
                lemma_first(s, p);
                lemma_name_end(s, q, true);
                lemma_first(s, n);
            }
            if r < s.len() && s[r as int] == '=' {
                let v = first_non_ws(s, r + 1);
                proof {
                    lemma_first(s, r + 1);
                    lemma_value(s, v);
                }
                match parse_value(s, v) {
                    Err(m) => Err(m),
                    Ok((value, e)) => parse_attrs(s, e, acc.push((name, value))),
                }
            } else {
                parse_attrs(s, r, acc.push((name, Seq::empty())))
            }
        }
    }
}

/// Text from `p`, trimmed, and the position after it.
pub open spec fn parse_text(s: Seq<char>, p: nat) -> (Node, nat) {
    let t = text_end(s, p);
    (Node::Text(trim(s.subrange(p as int, t as int))), t)
}

/// The element starting with the `<` at `p`, and the position after it.
pub open spec fn parse_elem(s: Seq<char>, p: nat) -> Result<(Node, nat), Seq<char>>
    decreases s.len() - p, 0nat,
{
    if !(p < s.len() && s[p as int] == '<') {
        Err(expect_error('<', peek_at(s, p)))
    } else if p + 1 < s.len() && s[p + 1int] == '/' {
        Err("Unexpected closing tag"@)
    } else {
        let n = name_end(s, p + 1, false);
        if n == p + 1 {
            Err("Expected tag name"@)
        } else {
            let name = s.subrange(p + 1int, n as int);
            proof {
                lemma_name_end(s, p + 1, false);
                lemma_attrs(s, n, Seq::empty());
            }
            match parse_attrs(s, n, Seq::empty()) {
                Err(m) => Err(m),
                Ok((attributes, q)) => if q < s.len() && s[q as int] == '/' {
                    if q + 1 < s.len() && s[q + 1int] == '>' {
                        Ok((Node::Tag { name, attributes, children: Seq::empty() }, q + 2))
                    } else {
                        Err(expect_error('>', peek_at(s, q + 1)))
                    }
                } else if q < s.len() && s[q as int] == '>' {
                    parse_children(s, q + 1, name, attributes, Seq::empty())
                } else {
                    Err(expect_error('>', peek_at(s, q)))
                },
            }
        }
    }
}

/// Children of the element `name` from `p` on, after those in `kids`, up to its closing tag
/// or the end of the text: the element and the position after it.
pub open spec fn parse_children(
    s: Seq<char>,
    p: nat,
    name: Seq<char>,
    attributes: Seq<(Seq<char>, Seq<char>)>,
    kids: Seq<Node>,
) -> Result<(Node, nat), Seq<char>>
    decreases s.len() - p, 1nat,
{
    let q = first_non_ws(s, p);
    if q >= s.len() {
        Ok((Node::Tag { name, attributes, children: kids }, q))
    } else if s[q as int] == '<' && q + 1 < s.len() && s[q + 1int] == '/' {
        let c = name_end(s, q + 2, false);
        proof {
            lemma_name_end(s, q + 2, false);
        }
        if c == q + 2 {
            Err("Expected tag name"@)
        } else if !(c < s.len() && s[c as int] == '>') {
            Err(expect_error('>', peek_at(s, c)))
        } else if s.subrange(q + 2int, c as int) != name {
            Err(mismatch_error(name, s.subrange(q + 2int, c as int)))
        } else {
            Ok((Node::Tag { name, attributes, children: kids }, c + 1))
        }
    } else if s[q as int] == '<' {
        proof {
            lemma_first(s, p);
        }
        match parse_elem(s, q) {
            Err(m) => Err(m),
            Ok((e, r)) => if q < r <= s.len() {
                parse_children(s, r, name, attributes, kids.push(e))
            } else {
                Err(Seq::empty())
            },
        }
    } else {
        proof {
            lemma_first(s, p);
            lemma_text_end(s, q);
        }
        let (t, e) = parse_text(s, q);
        parse_children(s, e, name, attributes, kids.push(t))
    }
}

/// The elements from `p` on, after those in `acc`.
pub open spec fn parse_nodes(s: Seq<char>, p: nat, acc: Seq<Node>) -> Result<Seq<Node>, Seq<char>>
    decreases s.len() - p,
{
    let q = first_non_ws(s, p);
    if q >= s.len() {
        Ok(acc)
    } else if s[q as int] == '<' {
        proof {
            lemma_first(s, p);
            lemma_elem_advances(s, q);
        }
        match parse_elem(s, q) {
            Err(m) => Err(m),
            Ok((e, r)) => parse_nodes(s, r, acc.push(e)),
        }
    } else {
        proof {
            lemma_first(s, p);
            lemma_text_end(s, q);
        }
        let (t, e) = parse_text(s, q);
        parse_nodes(s, e, acc.push(t))
    }
}

/// A name run stays within the text and never moves back.
pub proof fn lemma_name_end(s: Seq<char>, p: nat, underscore: bool)
    ensures
        p <= name_end(s, p, underscore),
        p <= s.len() ==> name_end(s, p, underscore) <= s.len(),
    decreases s.len() - p,
{
    if p < s.len() && (unicode_alphanumeric(s[p as int]) || s[p as int] == '-' || (underscore && s[p as int] == '_')) {
        lemma_name_end(s, p + 1, underscore);
    }
}

/// Text from a character other than `<` is not empty and stays within the text.
pub proof fn lemma_text_end(s: Seq<char>, p: nat)
    ensures
        p <= text_end(s, p),
        p <= s.len() ==> text_end(s, p) <= s.len(),
        p < s.len() && s[p as int] != '<' ==> p < text_end(s, p),
    decreases s.len() - p,
{
    if p < s.len() && s[p as int] != '<' {
        lemma_text_end(s, p + 1);
    }
}

/// A closing quote lies within the text, at or after where the search starts.
pub proof fn lemma_quote_end(s: Seq<char>, p: nat, q: char)
    ensures
        quote_end(s, p, q) matches Some(e) ==> p <= e < s.len() && s[e as int] == q,
    decreases s.len() - p,
{
    if p < s.len() && s[p as int] != q {
        lemma_quote_end(s, p + 1, q);
    }
}

/// A value ends after where it starts, within the text.
pub proof fn lemma_value(s: Seq<char>, p: nat)
    ensures
        parse_value(s, p) matches Ok((v, e)) ==> p < e <= s.len(),
{
    if p < s.len() {
        lemma_quote_end(s, p + 1, s[p as int]);
    }
}

/// Attributes end at or after where they start, within the text.
pub proof fn lemma_attrs(s: Seq<char>, p: nat, acc: Seq<(Seq<char>, Seq<char>)>)
    ensures
        parse_attrs(s, p, acc) matches Ok((a, q)) ==> p <= q < s.len(),
    decreases s.len() - p,
{
    let q = first_non_ws(s, p);
    if p <= s.len() {
        lemma_first(s, p);
    }
    if q < s.len() && (s[q as int] == '>' || s[q as int] == '/') {
    } else {
        let n = name_end(s, q, true);
        if n != q {
            let name = s.subrange(q as int, n as int);
            let r = first_non_ws(s, n);
            lemma_name_end(s, q, true);
            lemma_first(s, n);
            if r < s.len() && s[r as int] == '=' {
                let v = first_non_ws(s, r + 1);
                lemma_first(s, r + 1);
                lemma_value(s, v);
                match parse_value(s, v) {
                    Err(m) => {},
                    Ok((value, e)) => lemma_attrs(s, e, acc.push((name, value))),
                }
            } else {
                lemma_attrs(s, r, acc.push((name, Seq::empty())));
            }
        }
    }
}

/// An element ends after where it starts, within the text.
pub proof fn lemma_elem_advances(s: Seq<char>, p: nat)
    ensures
        parse_elem(s, p) matches Ok((e, r)) ==> p < r <= s.len(),
    decreases s.len() - p, 0nat,
{
    if p < s.len() && s[p as int] == '<' && !(p + 1 < s.len() && s[p + 1int] == '/') {
        let n = name_end(s, p + 1, false);
        if n != p + 1 {
            let name = s.subrange(p + 1int, n as int);
            lemma_name_end(s, p + 1, false);
            lemma_attrs(s, n, Seq::empty());
            match parse_attrs(s, n, Seq::empty()) {
                Err(m) => {},
                Ok((attributes, q)) => if q < s.len() && s[q as int] == '>' && !(s[q as int] == '/') {
                    lemma_children_advance(s, q + 1, name, attributes, Seq::empty());
                },
            }
        }
    }
}

/// Children end at or after where they start, within the text.
pub proof fn lemma_children_advance(
    s: Seq<char>,
    p: nat,
    name: Seq<char>,
    attributes: Seq<(Seq<char>, Seq<char>)>,
    kids: Seq<Node>,
)
    requires
        p <= s.len(),
    ensures
        parse_children(s, p, name, attributes, kids) matches Ok((e, r)) ==> p <= r <= s.len(),
    decreases s.len() - p, 1nat,
{
    let q = first_non_ws(s, p);
    lemma_first(s, p);
    if q < s.len() && !(s[q as int] == '<' && q + 1 < s.len() && s[q + 1int] == '/') {
        if s[q as int] == '<' {
            lemma_elem_advances(s, q);
            match parse_elem(s, q) {
                Err(m) => {},
                Ok((e, r)) => if q < r <= s.len() {
                    lemma_children_advance(s, r, name, attributes, kids.push(e));
                },
            }
        } else {
            lemma_text_end(s, q);
            let (t, e) = parse_text(s, q);
            lemma_children_advance(s, e, name, attributes, kids.push(t));
        }
    } else if q < s.len() {
        lemma_name_end(s, q + 2, false);
    }
}

/// An HTML element.
#[derive(Debug, PartialEq)]
pub enum Element {
    /// Text node
    Text(String),
    /// HTML element with tag, attributes, and children
    Tag { name: String, attributes: Vec<(String, String)>, children: Vec<Element> },
}

/// Attributes as text pairs.
pub open spec fn attrs_of(a: Seq<(String, String)>) -> Seq<(Seq<char>, Seq<char>)> {
    Seq::new(a.len(), |i: int| (a[i].0@, a[i].1@))
}

/// The parser's view of an element.
pub open spec fn node_of(e: Element) -> Node
    decreases e,
{
    match e {
        Element::Text(t) => Node::Text(t@),
        Element::Tag { name, attributes, children } => Node::Tag {
            name: name@,
            attributes: attrs_of(attributes@),
            children: nodes_of(children@),
        },
    }
}

/// The parser's view of a sequence of elements.
pub open spec fn nodes_of(es: Seq<Element>) -> Seq<Node>
    decreases es,
{
    if es.len() == 0 {
        Seq::empty()
    } else {
        nodes_of(es.subrange(0, es.len() - 1)).push(node_of(es[es.len() - 1]))
    }
}

/// Adding an element adds its view.
pub proof fn lemma_nodes_push(es: Seq<Element>, e: Element)
    ensures
        nodes_of(es.push(e)) == nodes_of(es).push(node_of(e)),
{
    assert(es.push(e).subrange(0, es.len() as int) =~= es);
}

/// Parser of HTML text into elements.
pub struct HtmlParser {
    /// The text
    input: Vec<char>,
    /// Position of the next character to read
    pos: usize,
}

impl HtmlParser {
    /// The text being parsed.
    pub closed spec fn text(&self) -> Seq<char> {
        self.input@
    }

    /// Position of the next character to read.
    pub closed spec fn at(&self) -> nat {
        self.pos as nat
    }

    /// The position lies within the text.
    pub closed spec fn wf(&self) -> bool {
        self.pos <= self.input@.len()
    }

    /// A parser at the start of `input`.
    pub fn new(input: &str) -> (p: Self)
        ensures
            p.wf(),
            p.text() == input@,
            p.at() == 0,
    {
        Self { input: str_to_chars(input), pos: 0 }
    }

    /// Parses the rest of the text into a sequence of elements.
    pub fn parse(&mut self) -> (r: Result<Vec<Element>, String>)
        requires
            old(self).wf(),
        ensures
            final(self).wf(),
            final(self).text() == old(self).text(),
            match parse_nodes(old(self).text(), old(self).at(), Seq::empty()) {
                Ok(ns) => r is Ok && nodes_of(r->Ok_0@) == ns && final(self).at() == final(self).text().len(),
                Err(m) => r is Err && r->Err_0@ == m,
            },
    {
        let ghost s = self.input@;
        let mut elements: Vec<Element> = Vec::new();
        loop
            invariant
                self.wf(),
                self.input@ == s,
                s == old(self).text(),
                parse_nodes(s, old(self).at(), Seq::empty()) == parse_nodes(s, self.pos as nat, nodes_of(elements@)),
            decreases s.len() - self.pos,
        {
            let ghost p = self.pos as nat;
            proof {
                lemma_first(s, p);
            }
            self.skip_whitespace();
            if self.is_eof() {
                return Ok(elements);
            }
            if self.peek() == Some('<') {
                proof {
                    lemma_elem_advances(s, self.pos as nat);
                }
                let e = match self.parse_element() {
                    Ok(e) => e,
                    Err(m) => return Err(m),
                };
                proof {
                    lemma_nodes_push(elements@, e);
                }
                elements.push(e);
            } else {
                proof {
                    lemma_text_end(s, self.pos as nat);
                }
                let e = match self.parse_text() {
                    Ok(e) => e,
                    Err(m) => return Err(m),
                };
                proof {
                    lemma_nodes_push(elements@, e);
                }
                elements.push(e);
            }
        }
    }

    /// Parses the element starting at the current `<`.
    fn parse_element(&mut self) -> (r: Result<Element, String>)
        requires
            old(self).wf(),
        ensures
            final(self).wf(),
            final(self).text() == old(self).text(),
            match parse_elem(old(self).text(), old(self).at()) {
                Ok((n, q)) => r is Ok && node_of(r->Ok_0) == n && final(self).at() == q,
                Err(m) => r is Err && r->Err_0@ == m,
            },
        decreases old(self).text().len() - old(self).at(),
    {
        let ghost s = self.input@;
        let ghost p0 = self.pos as nat;
        match self.expect('<') {
            Ok(()) => {},
            Err(m) => return Err(m),
        }
        if self.peek() == Some('/') {
            return Err("Unexpected closing tag".to_owned());
        }
        let name = match self.parse_tag_name() {
            Ok(n) => n,
            Err(m) => return Err(m),
        };
        proof {
            lemma_name_end(s, p0 + 1, false);
            lemma_attrs(s, self.pos as nat, Seq::empty());
        }
        let attributes = match self.parse_attributes() {
            Ok(a) => a,
            Err(m) => return Err(m),
        };
        if self.peek() == Some('/') {
            self.advance();
            match self.expect('>') {
                Ok(()) => {},
                Err(m) => return Err(m),
            }
            let e = Element::Tag { name, attributes, children: Vec::new() };
            assert(nodes_of(Seq::<Element>::empty()) == Seq::<Node>::empty());
            return Ok(e);
        }
        match self.expect('>') {
            Ok(()) => {},
            Err(m) => return Err(m),
        }
        let mut children: Vec<Element> = Vec::new();
        loop
            invariant
                self.wf(),
                self.input@ == s,
                s == old(self).text(),
                p0 == old(self).at(),
                p0 < self.pos,
                parse_elem(s, p0) == parse_children(s, self.pos as nat, name@, attrs_of(attributes@), nodes_of(children@)),
            decreases s.len() - self.pos,
        {
            proof {
                lemma_first(s, self.pos as nat);
            }
            let ghost p = self.pos as nat;
            self.skip_whitespace();
            if self.is_eof() {
                return Ok(Element::Tag { name, attributes, children });
            }
            if self.peek() == Some('<') && self.peek_next() == Some('/') {
                self.advance();
                self.advance();
                proof {
                    lemma_name_end(s, self.pos as nat, false);
                }
                let closing_name = match self.parse_tag_name() {
                    Ok(n) => n,
                    Err(m) => return Err(m),
                };
                match self.expect('>') {
                    Ok(()) => {},
                    Err(m) => return Err(m),
                }
                if !crate::text::str_eq(closing_name.as_str(), name.as_str()) {
                    let mut v: Vec<char> = Vec::new();
                    push_str(&mut v, "Mismatched closing tag: expected </");
                    push_str(&mut v, name.as_str());
                    push_str(&mut v, ">, got </");
                    push_str(&mut v, closing_name.as_str());
                    push_str(&mut v, ">");
                    return Err(chars_to_string(&v));
                }
                return Ok(Element::Tag { name, attributes, children });
            }
            if self.peek() == Some('<') {
                proof {
                    lemma_elem_advances(s, self.pos as nat);
                }
                let e = match self.parse_element() {
                    Ok(e) => e,
                    Err(m) => return Err(m),
                };
                proof {
                    lemma_nodes_push(children@, e);
                }
                children.push(e);
            } else {
                proof {
                    lemma_text_end(s, self.pos as nat);
                }
                let e = match self.parse_text() {
                    Ok(e) => e,
                    Err(m) => return Err(m),
                };
                proof {
                    lemma_nodes_push(children@, e);
                }
                children.push(e);
            }
        }
    }

    /// Parses text up to the next `<`, trimmed.
    fn parse_text(&mut self) -> (r: Result<Element, String>)
        requires
            old(self).wf(),
        ensures
            final(self).wf(),
            final(self).text() == old(self).text(),
            r is Ok,
            node_of(r->Ok_0) == parse_text(old(self).text(), old(self).at()).0,
            final(self).at() == parse_text(old(self).text(), old(self).at()).1,
    {
        let ghost s = self.input@;
        let ghost p0 = self.pos as nat;
        let mut text: Vec<char> = Vec::new();
        while self.pos < self.input.len() && self.input[self.pos] != '<'
            invariant
                self.wf(),
                self.input@ == s,
                p0 <= self.pos,
                text_end(s, p0) == text_end(s, self.pos as nat),
                text@ == s.subrange(p0 as int, self.pos as int),
            decreases s.len() - self.pos,
        {
            text.push(self.input[self.pos]);
            self.pos = self.pos + 1;
            assert(text@ =~= s.subrange(p0 as int, self.pos as int));
        }
        let t = trim_chars(&text);
        Ok(Element::Text(chars_to_string(&t)))
    }

    /// Parses a run of name characters; `underscore` admits `_` too.
    fn parse_name(&mut self, underscore: bool) -> (r: Option<String>)
        requires
            old(self).wf(),
        ensures
            final(self).wf(),
            final(self).text() == old(self).text(),
            ({
                let n = name_end(old(self).text(), old(self).at(), underscore);
                if n == old(self).at() {
                    r is None && final(self).at() == old(self).at()
                } else {
                    r is Some && r->0@ == old(self).text().subrange(old(self).at() as int, n as int)
                        && final(self).at() == n
                }
            }),
    {
        let ghost s = self.input@;
        let ghost p0 = self.pos as nat;
        let mut name: Vec<char> = Vec::new();
        while self.pos < self.input.len() && (char_is_alphanumeric(self.input[self.pos])
            || self.input[self.pos] == '-' || (underscore && self.input[self.pos] == '_'))
            invariant
                self.wf(),
                self.input@ == s,
                p0 <= self.pos,
                name_end(s, p0, underscore) == name_end(s, self.pos as nat, underscore),
                name@ == s.subrange(p0 as int, self.pos as int),
            decreases s.len() - self.pos,
        {
            name.push(self.input[self.pos]);
            self.pos = self.pos + 1;
            assert(name@ =~= s.subrange(p0 as int, self.pos as int));
        }
        if name.len() == 0 {
            None
        } else {
            Some(chars_to_string(&name))
        }
    }

    /// Parses a tag name.
    fn parse_tag_name(&mut self) -> (r: Result<String, String>)
        requires
            old(self).wf(),
        ensures
            final(self).wf(),
            final(self).text() == old(self).text(),
            ({
                let n = name_end(old(self).text(), old(self).at(), false);
                if n == old(self).at() {
                    r is Err && r->Err_0@ == "Expected tag name"@
                } else {
                    r is Ok && r->Ok_0@ == old(self).text().subrange(old(self).at() as int, n as int)
                        && final(self).at() == n
                }
            }),
    {
        match self.parse_name(false) {
            Some(n) => Ok(n),
            None => Err("Expected tag name".to_owned()),
        }
    }

    /// Parses attributes up to a `>` or `/`.
    fn parse_attributes(&mut self) -> (r: Result<Vec<(String, String)>, String>)
        requires
            old(self).wf(),
        ensures
            final(self).wf(),
            final(self).text() == old(self).text(),
            match parse_attrs(old(self).text(), old(self).at(), Seq::empty()) {
                Ok((a, q)) => r is Ok && attrs_of(r->Ok_0@) == a && final(self).at() == q,
                Err(m) => r is Err && r->Err_0@ == m,
            },
    {
        let ghost s = self.input@;
        let mut attributes: Vec<(String, String)> = Vec::new();
        assert(attrs_of(attributes@) =~= Seq::<(Seq<char>, Seq<char>)>::empty());
        loop
            invariant
                self.wf(),
                self.input@ == s,
                s == old(self).text(),
                parse_attrs(s, old(self).at(), Seq::empty()) == parse_attrs(s, self.pos as nat, attrs_of(attributes@)),
            decreases s.len() - self.pos,
        {
            let ghost p = self.pos as nat;
            proof {
                lemma_first(s, p);
            }
            self.skip_whitespace();
            if self.peek() == Some('>') || self.peek() == Some('/') {
                return Ok(attributes);
            }
            let ghost q = self.pos as nat;
            let name = match self.parse_attribute_name() {
                Ok(n) => n,
                Err(m) => return Err(m),
            };
            proof {
                lemma_name_end(s, q, true);
                lemma_first(s, self.pos as nat);
            }
            self.skip_whitespace();
            if self.peek() == Some('=') {
                self.advance();
                proof {
                    lemma_first(s, self.pos as nat);
                }
                self.skip_whitespace();
                proof {
                    lemma_value(s, self.pos as nat);
                }
                let value = match self.parse_attribute_value() {
                    Ok(v) => v,
                    Err(m) => return Err(m),
                };
                let ghost before = attributes@;
                attributes.push((name, value));
                assert(attrs_of(attributes@) =~= attrs_of(before).push((name@, value@)));
            } else {
                let ghost before = attributes@;
                attributes.push((name, String::new()));
                assert(attrs_of(attributes@) =~= attrs_of(before).push((name@, Seq::<char>::empty())));
            }
        }
    }

    /// Parses an attribute name.
    fn parse_attribute_name(&mut self) -> (r: Result<String, String>)
        requires
            old(self).wf(),
        ensures
            final(self).wf(),
            final(self).text() == old(self).text(),
            ({
                let n = name_end(old(self).text(), old(self).at(), true);
                if n == old(self).at() {
                    r is Err && r->Err_0@ == "Expected attribute name"@
                } else {
                    r is Ok && r->Ok_0@ == old(self).text().subrange(old(self).at() as int, n as int)
                        && final(self).at() == n
                }
            }),
    {
        match self.parse_name(true) {
            Some(n) => Ok(n),
            None => Err("Expected attribute name".to_owned()),
        }
    }

    /// Parses a quoted attribute value.
    fn parse_attribute_value(&mut self) -> (r: Result<String, String>)
        requires
            old(self).wf(),
        ensures
            final(self).wf(),
            final(self).text() == old(self).text(),
            match parse_value(old(self).text(), old(self).at()) {
                Ok((v, e)) => r is Ok && r->Ok_0@ == v && final(self).at() == e,
                Err(m) => r is Err && r->Err_0@ == m,
            },
    {
        let ghost s = self.input@;
        let quote = self.peek();
        let quote_char = match quote {
            Some(c) => c,
            None => return Err("Expected quoted attribute value".to_owned()),
        };
        if quote_char != '"' && quote_char != '\'' {
            return Err("Expected quoted attribute value".to_owned());
        }
        self.advance();
        let ghost p1 = self.pos as nat;
        let mut value: Vec<char> = Vec::new();
        while self.pos < self.input.len()
            invariant
                self.wf(),
                self.input@ == s,
                s == old(self).text(),
                p1 == old(self).at() + 1,
                old(self).at() < s.len(),
                s[old(self).at() as int] == quote_char,
                quote_char == '"' || quote_char == '\'',
                p1 <= self.pos,
                quote_end(s, p1, quote_char) == quote_end(s, self.pos as nat, quote_char),
                value@ == s.subrange(p1 as int, self.pos as int),
            decreases s.len() - self.pos,
        {
            let c = self.input[self.pos];
            if c == quote_char {
                self.pos = self.pos + 1;
                return Ok(chars_to_string(&value));
            }
            value.push(c);
            self.pos = self.pos + 1;
            assert(value@ =~= s.subrange(p1 as int, self.pos as int));
        }
        Err("Unterminated attribute value".to_owned())
    }

    /// Skips white space.
    fn skip_whitespace(&mut self)
        requires
            old(self).wf(),
        ensures
            final(self).wf(),
            final(self).text() == old(self).text(),
            final(self).at() == first_non_ws(old(self).text(), old(self).at()),
    {
        let ghost s = self.input@;
        while self.pos < self.input.len() && char_is_whitespace(self.input[self.pos])
            invariant
                self.wf(),
                self.input@ == s,
                first_non_ws(s, old(self).at()) == first_non_ws(s, self.pos as nat),
            decreases s.len() - self.pos,
        {
            self.pos = self.pos + 1;
        }
    }

    /// Consumes the expected character, or fails naming what is there instead.
    fn expect(&mut self, expected: char) -> (r: Result<(), String>)
        requires
            old(self).wf(),
        ensures
            final(self).wf(),
            final(self).text() == old(self).text(),
            if peek_at(old(self).text(), old(self).at()) == Some(expected) {
                r is Ok && final(self).at() == old(self).at() + 1
            } else {
                r is Err && r->Err_0@ == expect_error(expected, peek_at(old(self).text(), old(self).at()))
            },
    {
        let got = self.peek();
        if got == Some(expected) {
            self.advance();
            Ok(())
        } else {
            let mut v: Vec<char> = Vec::new();
            push_str(&mut v, "Expected '");
            v.push(expected);
            push_str(&mut v, "', got ");
            match got {
                Some(c) => {
                    push_str(&mut v, "Some(");
                    let d = char_debug_text(c);
                    push_str(&mut v, d.as_str());
                    push_str(&mut v, ")");
                },
                None => push_str(&mut v, "None"),
            }
            assert(v@ =~= expect_error(expected, got));
            Err(chars_to_string(&v))
        }
    }

    /// Consumes and returns the next character.
    fn advance(&mut self) -> (c: char)
        requires
            old(self).at() < old(self).text().len(),
        ensures
            final(self).wf(),
            final(self).text() == old(self).text(),
            final(self).at() == old(self).at() + 1,
            c == old(self).text()[old(self).at() as int],
    {
        let _len = self.input.len();
        let c = self.input[self.pos];
        self.pos = self.pos + 1;
        c
    }

    /// The next character, if any.
    fn peek(&self) -> (c: Option<char>)
        ensures
            c == peek_at(self.text(), self.at()),
    {
        if self.is_eof() {
            None
        } else {
            Some(self.input[self.pos])
        }
    }

    /// The character after the next one, if any.
    fn peek_next(&self) -> (c: Option<char>)
        requires
            self.at() < self.text().len(),
        ensures
            c == peek_at(self.text(), self.at() + 1),
    {
        let n = self.input.len();
        if self.pos + 1 >= n {
            None
        } else {
            Some(self.input[self.pos + 1])
        }
    }

    /// Whether the whole text was read.
    fn is_eof(&self) -> (b: bool)
        ensures
            b == (self.at() >= self.text().len()),
    {
        self.pos >= self.input.len()
    }
}

/// Rendering of a node indented by `indent`: text on a line of its own (none when empty), an
/// element as its tag name on a line followed by its children indented two spaces more.
pub open spec fn render_node(n: Node, indent: Seq<char>) -> Seq<char>
    decreases n,
{
    match n {
        Node::Text(t) => if t.len() == 0 { Seq::empty() } else { indent + t + "\n"@ },
        Node::Tag { name, attributes, children } => indent + "<"@ + name + ">\n"@
            + render_nodes(children, indent + "  "@),
    }
}

/// Rendering of nodes one after the other.
pub open spec fn render_nodes(ns: Seq<Node>, indent: Seq<char>) -> Seq<char>
    decreases ns,
{
    if ns.len() == 0 {
        Seq::empty()
    } else {
        render_nodes(ns.subrange(0, ns.len() - 1), indent) + render_node(ns[ns.len() - 1], indent)
    }
}

/// The texts of a node in order, each followed by a space; empty texts left out.
pub open spec fn node_text(n: Node) -> Seq<char>
    decreases n,
{
    match n {
        Node::Text(t) => if t.len() == 0 { Seq::empty() } else { t + " "@ },
        Node::Tag { name, attributes, children } => nodes_text(children),
    }
}

/// The texts of nodes one after the other.
pub open spec fn nodes_text(ns: Seq<Node>) -> Seq<char>
    decreases ns,
{
    if ns.len() == 0 {
        Seq::empty()
    } else {
        nodes_text(ns.subrange(0, ns.len() - 1)) + node_text(ns[ns.len() - 1])
    }
}

/// The last of some nodes is the last element's view.
proof fn lemma_nodes_prefix(es: Seq<Element>, i: int)
    requires
        0 <= i < es.len(),
    ensures
        nodes_of(es.subrange(0, i + 1)) == nodes_of(es.subrange(0, i)).push(node_of(es[i])),
        nodes_of(es).len() == es.len(),
{
    assert(es.subrange(0, i + 1).subrange(0, i) =~= es.subrange(0, i));
    lemma_nodes_len(es);
}

/// One view per element.
proof fn lemma_nodes_len(es: Seq<Element>)
    ensures
        nodes_of(es).len() == es.len(),
    decreases es.len(),
{
    if es.len() > 0 {
        lemma_nodes_len(es.subrange(0, es.len() - 1));
    }
}

/// A browser that shows HTML as text.
pub struct Browser;

impl Browser {
    /// Renders elements as indented text.
    pub fn render(elements: &[Element]) -> (out: String)
        ensures
            out@ == render_nodes(nodes_of(elements@), Seq::empty()),
    {
        let mut output: Vec<char> = Vec::new();
        let indent: Vec<char> = Vec::new();
        let mut i: usize = 0;
        while i < elements.len()
            invariant
                i <= elements@.len(),
                indent@ == Seq::<char>::empty(),
                output@ == render_nodes(nodes_of(elements@.subrange(0, i as int)), Seq::empty()),
            decreases elements@.len() - i,
        {
            proof {
                lemma_nodes_prefix(elements@, i as int);
                lemma_nodes_len(elements@.subrange(0, i + 1));
                assert(nodes_of(elements@.subrange(0, i + 1)).subrange(0, i as int) =~= nodes_of(elements@.subrange(0, i as int)));
            }
            Self::render_element(&elements[i], &mut output, &indent);
            i += 1;
        }
        assert(elements@.subrange(0, elements@.len() as int) =~= elements@);
        chars_to_string(&output)
    }

    /// Renders one element at the given indentation.
    fn render_element(element: &Element, output: &mut Vec<char>, indent: &Vec<char>)
        ensures
            final(output)@ == old(output)@ + render_node(node_of(*element), indent@),
        decreases element,
    {
        match element {
            Element::Text(text) => {
                let t = str_to_chars(text.as_str());
                if t.len() > 0 {
                    let ghost before = output@;
                    let mut k: usize = 0;
                    while k < indent.len()
                        invariant
                            k <= indent@.len(),
                            output@ == before + indent@.subrange(0, k as int),
                        decreases indent@.len() - k,
                    {
                        output.push(indent[k]);
                        k += 1;
                        assert(output@ =~= before + indent@.subrange(0, k as int));
                    }
                    assert(indent@.subrange(0, indent@.len() as int) =~= indent@);
                    push_str(output, text.as_str());
                    push_str(output, "\n");
                    assert(output@ =~= before + (indent@ + text@ + "\n"@));
                }
            },
            Element::Tag { name, attributes, children } => {
                let ghost before = output@;
                let mut k: usize = 0;
                while k < indent.len()
                    invariant
                        k <= indent@.len(),
                        output@ == before + indent@.subrange(0, k as int),
                    decreases indent@.len() - k,
                {
                    output.push(indent[k]);
                    k += 1;
                    assert(output@ =~= before + indent@.subrange(0, k as int));
                }
                assert(indent@.subrange(0, indent@.len() as int) =~= indent@);
                push_str(output, "<");
                push_str(output, name.as_str());
                push_str(output, ">\n");
                let ghost head = output@;
                assert(head =~= before + (indent@ + "<"@ + name@ + ">\n"@));
                let mut deeper: Vec<char> = Vec::new();
                let mut k: usize = 0;
                while k < indent.len()
                    invariant
                        k <= indent@.len(),
                        deeper@ == indent@.subrange(0, k as int),
                    decreases indent@.len() - k,
                {
                    deeper.push(indent[k]);
                    k += 1;
                    assert(deeper@ =~= indent@.subrange(0, k as int));
                }
                push_str(&mut deeper, "  ");
                assert(deeper@ =~= indent@ + "  "@);
                let mut i: usize = 0;
                while i < children.len()
                    invariant
                        i <= children@.len(),
                        deeper@ == indent@ + "  "@,
                        *element == (Element::Tag { name: *name, attributes: *attributes, children: *children }),
                        output@ == head + render_nodes(nodes_of(children@.subrange(0, i as int)), deeper@),
                    decreases children@.len() - i,
                {
                    proof {
                        lemma_nodes_prefix(children@, i as int);
                        lemma_nodes_len(children@.subrange(0, i + 1));
                        assert(nodes_of(children@.subrange(0, i + 1)).subrange(0, i as int)
                            =~= nodes_of(children@.subrange(0, i as int)));
                    }
                    proof {
                        assert(decreases_to!(*element => element->children));
                        assert(decreases_to!(element->children => element->children@));
                        assert(decreases_to!(element->children@ => element->children@[i as int]));
                        assert(decreases_to!(*element => children@[i as int]));
                    }
                    Self::render_element(&children[i], output, &deeper);
                    i += 1;
                }
                assert(children@.subrange(0, children@.len() as int) =~= children@);
            },
        }
    }

    /// All text of the elements, each piece followed by a space.
    pub fn extract_text(elements: &[Element]) -> (text: String)
        ensures
            text@ == nodes_text(nodes_of(elements@)),
    {
        let mut text: Vec<char> = Vec::new();
        let mut i: usize = 0;
        while i < elements.len()
            invariant
                i <= elements@.len(),
                text@ == nodes_text(nodes_of(elements@.subrange(0, i as int))),
            decreases elements@.len() - i,
        {
            proof {
                lemma_nodes_prefix(elements@, i as int);
                lemma_nodes_len(elements@.subrange(0, i + 1));
                assert(nodes_of(elements@.subrange(0, i + 1)).subrange(0, i as int) =~= nodes_of(elements@.subrange(0, i as int)));
            }
            Self::extract_text_from_element(&elements[i], &mut text);
            i += 1;
        }
        assert(elements@.subrange(0, elements@.len() as int) =~= elements@);
        chars_to_string(&text)
    }

    /// Appends the text of one element.
    fn extract_text_from_element(element: &Element, text: &mut Vec<char>)
        ensures
            final(text)@ == old(text)@ + node_text(node_of(*element)),
        decreases element,
    {
        match element {
            Element::Text(t) => {
                let cs = str_to_chars(t.as_str());
                if cs.len() > 0 {
                    push_str(text, t.as_str());
                    push_str(text, " ");
                    assert(final(text)@ =~= old(text)@ + (t@ + " "@));
                }
            },
            Element::Tag { name, attributes, children } => {
                let mut i: usize = 0;
                while i < children.len()
                    invariant
                        i <= children@.len(),
                        *element == (Element::Tag { name: *name, attributes: *attributes, children: *children }),
                        text@ == old(text)@ + nodes_text(nodes_of(children@.subrange(0, i as int))),
                    decreases children@.len() - i,
                {
                    proof {
                        lemma_nodes_prefix(children@, i as int);
                        lemma_nodes_len(children@.subrange(0, i + 1));
                        assert(nodes_of(children@.subrange(0, i + 1)).subrange(0, i as int)
                            =~= nodes_of(children@.subrange(0, i as int)));
                    }
                    proof {
                        assert(decreases_to!(*element => element->children));
                        assert(decreases_to!(element->children => element->children@));
                        assert(decreases_to!(element->children@ => element->children@[i as int]));
                        assert(decreases_to!(*element => children@[i as int]));
                    }
                    Self::extract_text_from_element(&children[i], text);
                    i += 1;
                }
                assert(children@.subrange(0, children@.len() as int) =~= children@);
            },
        }
    }
}

} // verus!
