//! Container attributes of a record declaration.

use crate::syntax::is_ident;
use crate::syntax::parse_ident;
use crate::syntax::parse_str_literal;
use crate::syntax::str_literal;
use crate::text::find;
use crate::text::joined;
use crate::text::position;
use crate::text::str_eq;
use crate::text::str_view;
use crate::text::trim;
use crate::text::trimmed;
use vstd::prelude::*;
use vstd::string::StringExecFns;

verus! {

/// One option given on a record declaration.
#[derive(Clone, Debug)]
pub enum Attr {
    /// Overrides the name under which the record is stored.
    Name(String),
}

/// The mathematical value of an [`Attr`].
pub enum AttrView {
    Name(Seq<char>),
}

impl View for Attr {
    type V = AttrView;

    open spec fn view(&self) -> AttrView {
        match self {
            Attr::Name(name) => AttrView::Name(name@),
        }
    }
}

/// The value given for an option, as far as the options read it.
#[derive(Clone, Debug, PartialEq, Eq)]
pub enum AttrValue {
    /// A string literal, with the string it denotes.
    Str(String),
    /// Any other expression.
    Other,
}

/// The mathematical value of an [`AttrValue`].
pub enum AttrValueView {
    Str(Seq<char>),
    Other,
}

impl View for AttrValue {
    type V = AttrValueView;

    open spec fn view(&self) -> AttrValueView {
        match self {
            AttrValue::Str(value) => AttrValueView::Str(value@),
            AttrValue::Other => AttrValueView::Other,
        }
    }
}

/// Why the tokens of an attribute give no option.
#[derive(Clone, Debug, PartialEq, Eq)]
pub enum ParseError {
    /// The tokens are not of the form `(key = value)`.
    Malformed,
    /// The value given for `name` is not a string literal.
    NameNotStr,
    /// There is no option of this key.
    UnknownAttribute(String),
}

/// The mathematical value of a [`ParseError`].
pub enum ParseErrorView {
    Malformed,
    NameNotStr,
    UnknownAttribute(Seq<char>),
}

impl View for ParseError {
    type V = ParseErrorView;

    open spec fn view(&self) -> ParseErrorView {
        match self {
            ParseError::Malformed => ParseErrorView::Malformed,
            ParseError::NameNotStr => ParseErrorView::NameNotStr,
            ParseError::UnknownAttribute(key) => ParseErrorView::UnknownAttribute(key@),
        }
    }
}

impl ParseErrorView {
    /// The text of the error.
    pub open spec fn message(self) -> Seq<char> {
        match self {
            ParseErrorView::Malformed => "expected `(key = value)`"@,
            ParseErrorView::NameNotStr => "the name attribute only accepts a string literal"@,
            ParseErrorView::UnknownAttribute(key) => "unknwon attribute "@ + key,
        }
    }
}

impl ParseError {
    /// The text of the error.
    pub fn message(&self) -> (text: String)
        ensures
            text@ == self@.message(),
    {
        match self {
            ParseError::Malformed => String::from_str("expected `(key = value)`"),
            ParseError::NameNotStr => String::from_str(
                "the name attribute only accepts a string literal",
            ),
            ParseError::UnknownAttribute(key) => joined("unknwon attribute ", key.as_str()),
        }
    }
}

/// The two sides of the assignment that `text` holds, each without the blanks around it.
///
/// An assignment stands in one pair of parentheses, with nothing but blanks around them. Its
/// left side ends at the first `=` between the parentheses, and its right side begins after it.
/// That `=` is an assignment only if neither `=` nor `>` follows it at once.
pub open spec fn assignment(text: Seq<char>) -> Option<(Seq<char>, Seq<char>)> {
    let group = trimmed(text);
    if group.len() >= 2 && group.first() == '(' && group.last() == ')' {
        let inner = group.subrange(1, group.len() - 1);
        match position(inner, '=') {
            Some(k) => {
                let right = inner.skip(k + 1);
                if right.len() > 0 && (right[0] == '=' || right[0] == '>') {
                    None
                } else {
                    Some((trimmed(inner.take(k)), trimmed(right)))
                }
            },
            None => None,
        }
    } else {
        None
    }
}

/// What the right side `text` of an assignment gives: the string it denotes where it is a
/// string literal, else some other expression.
pub open spec fn value_of(text: Seq<char>) -> AttrValueView {
    if text.len() > 0 && (text[0] == '"' || text[0] == 'r') {
        match str_literal(text) {
            Some(value) => AttrValueView::Str(value),
            None => AttrValueView::Other,
        }
    } else {
        AttrValueView::Other
    }
}

/// The option that the key `key` and the value `value` give. The only key is `name`, and its
/// value must be a string literal.
pub open spec fn decided(key: Seq<char>, value: AttrValueView) -> Result<
    AttrView,
    ParseErrorView,
> {
    if key == "name"@ {
        match value {
            AttrValueView::Str(name) => Ok(AttrView::Name(name)),
            AttrValueView::Other => Err(ParseErrorView::NameNotStr),
        }
    } else {
        Err(ParseErrorView::UnknownAttribute(key))
    }
}

/// The option that the tokens `text` of an attribute give. The tokens must hold an assignment
/// whose left side is an identifier and whose right side is not empty.
pub open spec fn parsed(text: Seq<char>) -> Result<AttrView, ParseErrorView> {
    match assignment(text) {
        Some((key, value)) => {
            if is_ident(key) && value.len() > 0 {
                decided(key, value_of(value))
            } else {
                Err(ParseErrorView::Malformed)
            }
        },
        None => Err(ParseErrorView::Malformed),
    }
}

/// `r`, with the option or the error taken by its view.
pub open spec fn parse_view(r: Result<Attr, ParseError>) -> Result<AttrView, ParseErrorView> {
    match r {
        Ok(attr) => Ok(attr@),
        Err(e) => Err(e@),
    }
}

/// `parts`, with each side taken by its view.
pub open spec fn sides_view(parts: Option<(&str, &str)>) -> Option<(Seq<char>, Seq<char>)> {
    match parts {
        Some((key, value)) => Some((key@, value@)),
        None => None,
    }
}

/// Splits the tokens of an attribute into the two sides of the assignment that they hold.
pub fn split_assignment(input: &str) -> (parts: Option<(&str, &str)>)
    ensures
        sides_view(parts) == assignment(input@),
{
    let group = trim(input);
    let n = group.unicode_len();
    if n < 2 {
        return None;
    }
    if group.get_char(0) != '(' || group.get_char(n - 1) != ')' {
        return None;
    }
    let inner = group.substring_char(1, n - 1);
    match find(inner, '=') {
        Some(k) => {
            let right = inner.substring_char(k + 1, inner.unicode_len());
            proof {
                assert(right@ == inner@.skip(k + 1));
            }
            if right.unicode_len() > 0 {
                let next = right.get_char(0);
                if next == '=' || next == '>' {
                    return None;
                }
            }
            let left = inner.substring_char(0, k);
            proof {
                assert(left@ == inner@.take(k as int));
            }
            Some((trim(left), trim(right)))
        },
        None => None,
    }
}

impl AttrValue {
    /// Reads the right side of an assignment: a string literal gives the string it denotes,
    /// anything else is some other expression.
    pub fn read(text: &str) -> (value: Self)
        ensures
            value@ == value_of(text@),
    {
        if text.unicode_len() == 0 {
            return AttrValue::Other;
        }
        let first = text.get_char(0);
        if first == '"' || first == 'r' {
            match parse_str_literal(text) {
                Some(value) => AttrValue::Str(value),
                None => AttrValue::Other,
            }
        } else {
            AttrValue::Other
        }
    }
}

impl Attr {
    /// Decides which option the key `key` and the value `value` give.
    pub fn from_assignment(key: &str, value: AttrValue) -> (r: Result<Self, ParseError>)
        ensures
            parse_view(r) == decided(key@, value@),
    {
        if str_eq(key, "name") {
            // Only accept a string literal.
            match value {
                AttrValue::Str(name) => Ok(Attr::Name(name)),
                AttrValue::Other => Err(ParseError::NameNotStr),
            }
        } else {
            Err(ParseError::UnknownAttribute(String::from_str(key)))
        }
    }

    /// Reads one option from the tokens of an attribute, given as text.
    pub fn parse(input: &str) -> (r: Result<Self, ParseError>)
        ensures
            parse_view(r) == parsed(input@),
    {
        match split_assignment(input) {
            Some((key, value)) => {
                if parse_ident(key) && value.unicode_len() > 0 {
                    Attr::from_assignment(key, AttrValue::read(value))
                } else {
                    Err(ParseError::Malformed)
                }
            },
            None => Err(ParseError::Malformed),
        }
    }
}

/// The name that a list of attributes gives a record: that of the first `Name` among them.
pub open spec fn first_name(attrs: Seq<AttrView>) -> Option<Seq<char>> {
    if attrs.len() == 0 {
        None
    } else {
        match attrs[0] {
            AttrView::Name(name) => Some(name),
        }
    }
}

/// The options given on one record declaration, in the order in which they were written.
#[derive(Clone, Debug)]
pub struct Attrs(Vec<Attr>);

impl View for Attrs {
    type V = Seq<AttrView>;

    closed spec fn view(&self) -> Seq<AttrView> {
        Seq::new(self.0@.len(), |i: int| self.0@[i]@)
    }
}

impl Default for Attrs {
    /// An empty list of options.
    fn default() -> (attrs: Self)
        ensures
            attrs@ == Seq::<AttrView>::empty(),
    {
        Attrs::new()
    }
}

impl Attrs {
    /// An empty list of options.
    pub fn new() -> (attrs: Self)
        ensures
            attrs@ == Seq::<AttrView>::empty(),
    {
        Self(Vec::new())
    }

    /// Appends `attr` to the list.
    pub fn push(&mut self, attr: Attr)
        ensures
            final(self)@ == old(self)@.push(attr@),
    {
        self.0.push(attr);
    }

    /// The name override, if any option gives one. Where several do, the first wins.
    pub fn name(&self) -> (name: Option<String>)
        ensures
            str_view(name) == first_name(self@),
    {
        if self.0.len() == 0 {
            None
        } else {
            match &self.0[0] {
                Attr::Name(name) => Some(name.clone()),
            }
        }
    }
}

} // verus!
