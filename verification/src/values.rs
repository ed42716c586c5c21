//! The value of a feature: a text together with the kind of content it holds.

use vstd::prelude::*;
use vstd::string::*;
use crate::text::{chars_of, same_text, trim, trimmed};

verus! {

/// What the text of a value is meant to be read as.
#[derive(Debug, PartialEq, Eq, Structural, Clone, Copy)]
pub enum ValueType {
    Text,
    Json,
    Toml,
}

/// A text with its kind.
#[derive(Debug, PartialEq)]
pub enum FeatureValue {
    Text(String),
    Json(String),
    Toml(String),
}

/// Why a text could not be read as a value.
#[derive(Debug, PartialEq)]
pub enum ParseTypeError {
    /// The name in front of the separator is no kind of value.
    Type(String),
    /// The text holds no separator.
    Encoding,
}

/// What a `ParseTypeError` stands for.
pub enum ParseFailure {
    Type(Seq<char>),
    Encoding,
}

/// The name under which a kind is written.
pub open spec fn kind_name(kind: ValueType) -> Seq<char> {
    match kind {
        ValueType::Text => seq!['t', 'e', 'x', 't'],
        ValueType::Json => seq!['j', 's', 'o', 'n'],
        ValueType::Toml => seq!['t', 'o', 'm', 'l'],
    }
}

/// The two characters between the name of a kind and the text.
pub open spec fn separator() -> Seq<char> {
    seq![':', ':']
}

/// The value that a kind's name and a text make.
pub open spec fn typed(typ: Seq<char>, text: Seq<char>) -> Result<(ValueType, Seq<char>), ParseFailure> {
    if typ == kind_name(ValueType::Json) {
        Ok((ValueType::Json, text))
    } else if typ == kind_name(ValueType::Toml) {
        Ok((ValueType::Toml, text))
    } else if typ == kind_name(ValueType::Text) {
        Ok((ValueType::Text, text))
    } else {
        Err(ParseFailure::Type(typ))
    }
}

/// The first position at or after `from` where the separator begins, or the
/// length of `s` where it occurs no more.
pub open spec fn separator_at(s: Seq<char>, from: int) -> int
    decreases s.len() - from,
{
    if from < 0 || from + 1 >= s.len() {
        s.len() as int
    } else if s[from] == ':' && s[from + 1] == ':' {
        from
    } else {
        separator_at(s, from + 1)
    }
}

/// The value that an encoded text stands for: what precedes the first
/// separator names the kind, what follows it is the text.
pub open spec fn decoded(s: Seq<char>) -> Result<(ValueType, Seq<char>), ParseFailure> {
    let at = separator_at(s, 0);
    if at < s.len() {
        typed(s.subrange(0, at), s.subrange(at + 2, s.len() as int))
    } else {
        Err(ParseFailure::Encoding)
    }
}

/// The encoded form of a value: the kind's name, the separator, and the text
/// without the white space at its ends.
pub open spec fn encoded(value: (ValueType, Seq<char>)) -> Seq<char> {
    kind_name(value.0) + separator() + trimmed(value.1)
}

/// A value that was written is read back as it was written: with its
/// kind, and with its text without the white space at its ends.
pub proof fn encoded_is_decoded(value: (ValueType, Seq<char>))
    ensures
        decoded(encoded(value)) == Ok::<(ValueType, Seq<char>), ParseFailure>(
            (value.0, trimmed(value.1)),
        ),
{
    let name = kind_name(value.0);
    let text = trimmed(value.1);
    let s = encoded(value);
    assert(name.len() == 4);
    assert(s.len() == 6 + text.len());
    assert(s[0] == name[0] && s[1] == name[1] && s[2] == name[2] && s[3] == name[3]);
    assert(s[4] == ':' && s[5] == ':');
    assert(separator_at(s, 4) == 4);
    assert(separator_at(s, 3) == 4);
    assert(separator_at(s, 2) == 4);
    assert(separator_at(s, 1) == 4);
    assert(separator_at(s, 0) == 4);
    assert(s.subrange(0, 4) =~= name);
    assert(s.subrange(6, s.len() as int) =~= text);
}

impl View for FeatureValue {
    type V = (ValueType, Seq<char>);

    open spec fn view(&self) -> (ValueType, Seq<char>) {
        match self {
            FeatureValue::Text(v) => (ValueType::Text, v@),
            FeatureValue::Json(v) => (ValueType::Json, v@),
            FeatureValue::Toml(v) => (ValueType::Toml, v@),
        }
    }
}

impl View for ParseTypeError {
    type V = ParseFailure;

    open spec fn view(&self) -> ParseFailure {
        match self {
            ParseTypeError::Type(t) => ParseFailure::Type(t@),
            ParseTypeError::Encoding => ParseFailure::Encoding,
        }
    }
}

/// What a result of reading a value stands for.
pub open spec fn outcome(r: Result<FeatureValue, ParseTypeError>) -> Result<
    (ValueType, Seq<char>),
    ParseFailure,
> {
    match r {
        Ok(v) => Ok(v@),
        Err(e) => Err(e@),
    }
}

impl Clone for FeatureValue {
    fn clone(&self) -> (copy: Self)
        ensures
            copy == *self,
    {
        match self {
            FeatureValue::Text(v) => FeatureValue::Text(v.clone()),
            FeatureValue::Json(v) => FeatureValue::Json(v.clone()),
            FeatureValue::Toml(v) => FeatureValue::Toml(v.clone()),
        }
    }
}

impl Default for FeatureValue {
    fn default() -> (value: Self)
        ensures
            value@ == (ValueType::Text, Seq::<char>::empty()),
    {
        FeatureValue::Text(String::new())
    }
}

impl FeatureValue {
    /// Makes a value from the name of its kind and its text.
    pub fn new(typ: &str, value: &str) -> (r: Result<Self, ParseTypeError>)
        ensures
            outcome(r) == typed(typ@, value@),
    {
        proof {
            reveal_strlit("json");
            reveal_strlit("toml");
            reveal_strlit("text");
            assert("json"@ =~= kind_name(ValueType::Json));
            assert("toml"@ =~= kind_name(ValueType::Toml));
            assert("text"@ =~= kind_name(ValueType::Text));
        }
        let val = String::from_str(value);
        if same_text(typ, "json") {
            Ok(FeatureValue::Json(val))
        } else if same_text(typ, "toml") {
            Ok(FeatureValue::Toml(val))
        } else if same_text(typ, "text") {
            Ok(FeatureValue::Text(val))
        } else {
            Err(ParseTypeError::Type(String::from_str(typ)))
        }
    }

    /// A plain text value.
    pub fn build(value: &str) -> (r: Self)
        ensures
            r@ == (ValueType::Text, value@),
    {
        FeatureValue::Text(String::from_str(value))
    }

    /// A value of the same kind as this one, with another text.
    pub fn clone_with(&self, value: &str) -> (r: Self)
        ensures
            r@ == (self@.0, value@),
    {
        match self {
            FeatureValue::Text(_) => FeatureValue::Text(String::from_str(value)),
            FeatureValue::Json(_) => FeatureValue::Json(String::from_str(value)),
            FeatureValue::Toml(_) => FeatureValue::Toml(String::from_str(value)),
        }
    }

    /// The name of the kind and the text.
    pub fn decompose(&self) -> (parts: (&str, &str))
        ensures
            parts.0@ == kind_name(self@.0),
            parts.1@ == self@.1,
    {
        proof {
            reveal_strlit("json");
            reveal_strlit("toml");
            reveal_strlit("text");
            assert("json"@ =~= kind_name(ValueType::Json));
            assert("toml"@ =~= kind_name(ValueType::Toml));
            assert("text"@ =~= kind_name(ValueType::Text));
        }
        match self {
            FeatureValue::Json(v) => ("json", v.as_str()),
            FeatureValue::Toml(v) => ("toml", v.as_str()),
            FeatureValue::Text(v) => ("text", v.as_str()),
        }
    }

    /// The kind of this value.
    pub fn value_type(&self) -> (kind: ValueType)
        ensures
            kind == self@.0,
    {
        match self {
            FeatureValue::Json(_) => ValueType::Json,
            FeatureValue::Toml(_) => ValueType::Toml,
            FeatureValue::Text(_) => ValueType::Text,
        }
    }

    /// The value that a typed text stands for: as it is written where it
    /// names its kind, and else of the kind of `like`, or a plain text
    /// where there is nothing to be like.
    pub fn typed_like(text: &str, like: Option<&FeatureValue>) -> (value: Self)
        ensures
            value@ == match decoded(text@) {
                Ok(v) => v,
                Err(_) => (
                    match like {
                        Some(other) => other@.0,
                        None => ValueType::Text,
                    },
                    text@,
                ),
            },
    {
        match Self::parse(text) {
            Ok(value) => value,
            Err(_) => match like {
                Some(other) => other.clone_with(text),
                None => Self::build(text),
            },
        }
    }

    /// Reads an encoded value.
    pub fn parse(value: &str) -> (r: Result<Self, ParseTypeError>)
        ensures
            outcome(r) == decoded(value@),
    {
        let chars = chars_of(value);
        let len: usize = chars.len();
        let mut at: usize = 0;
        while at < len && at + 1 < len && !(chars[at] == ':' && chars[at + 1] == ':')
            invariant
                chars@ == value@,
                len == value@.len(),
                at <= len,
                separator_at(value@, 0) == separator_at(value@, at as int),
            decreases len - at,
        {
            at = at + 1;
        }
        if at < len && at + 1 < len {
            Self::new(value.substring_char(0, at), value.substring_char(at + 2, len))
        } else {
            Err(ParseTypeError::Encoding)
        }
    }

    /// Writes the value in its encoded form.
    pub fn to_string(&self) -> (s: String)
        ensures
            s@ == encoded(self@),
    {
        proof {
            reveal_strlit("::");
            assert("::"@ =~= separator());
        }
        let (typ, val) = self.decompose();
        let mut s = String::from_str(typ);
        s.append("::");
        s.append(trim(val));
        s
    }
}

impl core::str::FromStr for FeatureValue {
    type Err = ParseTypeError;

    /// Reads an encoded value, as `FeatureValue::parse` does.
    fn from_str(value: &str) -> (r: Result<Self, ParseTypeError>)
        ensures
            outcome(r) == decoded(value@),
    {
        FeatureValue::parse(value)
    }
}

impl ParseTypeError {
    /// The name that was taken for a kind, where that is what failed.
    pub fn unknown_type(&self) -> (name: Option<&str>)
        ensures
            match self@ {
                ParseFailure::Type(t) => name is Some && name->0@ == t,
                ParseFailure::Encoding => name is None,
            },
    {
        match self {
            ParseTypeError::Type(t) => Some(t.as_str()),
            ParseTypeError::Encoding => None,
        }
    }
}

} // verus!
