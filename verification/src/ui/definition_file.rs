//! The field-definition file (`fields.ini`): sections of lines such as
//! `x40 [vec4; 4] foo ; comment`, each naming a field of a game structure.

use vstd::prelude::*;

use self::grammar::{complete, Context, DefinitionFileV, FailureV, FieldV};
use self::parser::Failure;
use crate::text::{byte_offset, chars_of, utf8_len};

verus! {

/// All fields listed in a definition file, grouped by the structure they describe.
#[derive(Debug, Default, PartialEq, Eq)]
pub struct DefinitionFile {
    pub katamari: Vec<Field>,
    pub prince: Vec<Field>,
    pub thing: Vec<Field>,
    pub camera: Vec<Field>,
    pub camera_transform: Vec<Field>,
    pub global: Vec<Field>,
}

/// The type of a field, which decides its size and how it is shown.
#[derive(Debug, PartialEq, Eq)]
pub enum FieldType {
    Float,
    Vec4,
    Mat4,
    Bool,
    Int8 { signed: bool },
    Int16 { signed: bool },
    Int32 { signed: bool },
    Int64 { signed: bool },
    Address,
    MotionVectors,
    Array(Box<FieldType>, usize),
}

impl Clone for FieldType {
    fn clone(&self) -> (r: Self)
        ensures
            r == *self,
        decreases self,
    {
        match self {
            FieldType::Float => FieldType::Float,
            FieldType::Vec4 => FieldType::Vec4,
            FieldType::Mat4 => FieldType::Mat4,
            FieldType::Bool => FieldType::Bool,
            FieldType::Int8 { signed } => FieldType::Int8 { signed: *signed },
            FieldType::Int16 { signed } => FieldType::Int16 { signed: *signed },
            FieldType::Int32 { signed } => FieldType::Int32 { signed: *signed },
            FieldType::Int64 { signed } => FieldType::Int64 { signed: *signed },
            FieldType::Address => FieldType::Address,
            FieldType::MotionVectors => FieldType::MotionVectors,
            FieldType::Array(inner, count) => {
                let t = FieldType::clone(inner);
                FieldType::Array(Box::new(t), *count)
            },
        }
    }
}

/// Size in bytes of one value of the type.
pub open spec fn spec_size(t: FieldType) -> nat
    decreases t,
{
    match t {
        FieldType::Int8 { .. } | FieldType::Bool => 1,
        FieldType::Int16 { .. } => 2,
        FieldType::Int32 { .. } | FieldType::Float => 4,
        FieldType::Int64 { .. } | FieldType::Address => 8,
        FieldType::Vec4 => 16,
        FieldType::Mat4 => 64,
        FieldType::MotionVectors => 208,
        FieldType::Array(inner, count) => spec_size(*inner) * (count as nat),
    }
}

/// Every size computed on the way to the type's size fits in a `usize`.
pub open spec fn size_fits(t: FieldType) -> bool
    decreases t,
{
    match t {
        FieldType::Array(inner, count) => size_fits(*inner) && spec_size(*inner) * count <= usize::MAX,
        _ => true,
    }
}

impl FieldType {
    /// Size in bytes: four-component vectors take 16 bytes, matrices 64,
    /// the block of thirteen motion vectors 208, and an array its element
    /// size times its length.
    pub fn size(&self) -> (r: usize)
        requires
            size_fits(*self),
        ensures
            r == spec_size(*self),
        decreases self,
    {
        match self {
            FieldType::Int8 { .. } | FieldType::Bool => 1,
            FieldType::Int16 { .. } => 2,
            FieldType::Int32 { .. } | FieldType::Float => 4,
            FieldType::Int64 { .. } | FieldType::Address => 8,
            FieldType::Vec4 => 16,
            FieldType::Mat4 => 64,
            FieldType::MotionVectors => 208,
            FieldType::Array(inner, count) => {
                let n = inner.size();
                n * *count
            },
        }
    }

    /// The size in bytes, or `None` when it (or the size of an element on
    /// the way to it) does not fit in a `usize`.
    pub fn checked_size(&self) -> (r: Option<usize>)
        ensures
            r == (if size_fits(*self) {
                Some(spec_size(*self) as usize)
            } else {
                None::<usize>
            }),
        decreases self,
    {
        match self {
            FieldType::Array(inner, count) => match inner.checked_size() {
                Some(n) => n.checked_mul(*count),
                None => None,
            },
            _ => Some(self.size()),
        }
    }
}

/// Where a field lives: `base` bytes into the structure, and, when `offset`
/// is present, `offset` bytes into whatever the pointer stored at `base` points to.
#[derive(Debug, Clone, PartialEq, Eq)]
pub struct FieldPos {
    pub base: isize,
    pub offset: Option<isize>,
}

impl FieldPos {
    pub fn new(base: isize) -> (r: Self)
        ensures
            r == (FieldPos { base, offset: None }),
    {
        Self { base, offset: None }
    }

    pub fn with_offset(self, offset: isize) -> (r: Self)
        ensures
            r == (FieldPos { base: self.base, offset: Some(offset) }),
    {
        Self { base: self.base, offset: Some(offset) }
    }
}

/// One line of a definition file.
#[derive(Debug, Clone, PartialEq, Eq)]
pub struct Field {
    pub position: FieldPos,
    pub field_type: FieldType,
    pub name: Option<String>,
}

impl View for FieldType {
    type V = FieldType;

    open spec fn view(&self) -> FieldType {
        *self
    }
}

impl View for FieldPos {
    type V = FieldPos;

    open spec fn view(&self) -> FieldPos {
        *self
    }
}

pub open spec fn name_view(n: Option<String>) -> Option<Seq<char>> {
    match n {
        Some(s) => Some(s@),
        None => None,
    }
}

impl View for Field {
    type V = FieldV;

    open spec fn view(&self) -> FieldV {
        FieldV { position: self.position, field_type: self.field_type, name: name_view(self.name) }
    }
}

pub open spec fn fields_view(v: Seq<Field>) -> Seq<FieldV> {
    v.map_values(|f: Field| f@)
}

impl View for DefinitionFile {
    type V = DefinitionFileV;

    open spec fn view(&self) -> DefinitionFileV {
        DefinitionFileV {
            katamari: fields_view(self.katamari@),
            prince: fields_view(self.prince@),
            thing: fields_view(self.thing@),
            camera: fields_view(self.camera@),
            camera_transform: fields_view(self.camera_transform@),
            global: fields_view(self.global@),
        }
    }
}

/// Why a definition file (or a line or section of one) was refused.
#[derive(Debug)]
pub struct ParseError {
    input: String,
    offset: usize,
    position: usize,
    context: Vec<Context>,
}

pub struct ParseErrorV {
    /// The text that was parsed.
    pub input: Seq<char>,
    /// Byte offset, in `input`, where parsing stopped.
    pub offset: nat,
    /// Character position, in `input`, where parsing stopped.
    pub position: nat,
    /// What was being parsed, innermost first.
    pub context: Seq<Context>,
}

impl View for ParseError {
    type V = ParseErrorV;

    closed spec fn view(&self) -> ParseErrorV {
        ParseErrorV {
            input: self.input@,
            offset: self.offset as nat,
            position: self.position as nat,
            context: self.context@,
        }
    }
}

/// The error reported when parsing `s` fails with `e`.
pub open spec fn reported(s: Seq<char>, e: FailureV) -> ParseErrorV {
    ParseErrorV {
        input: s,
        offset: utf8_len(s.take(e.pos)),
        position: e.pos as nat,
        context: e.context,
    }
}

/// What parsing all of `s` with a rule yields.
pub open spec fn outcome<T>(s: Seq<char>, r: Result<(T, int), FailureV>) -> Result<T, ParseErrorV> {
    match complete(s, r) {
        Ok((v, _)) => Ok(v),
        Err(e) => Err(reported(s, e)),
    }
}

pub open spec fn result_view<T: View>(r: Result<T, ParseError>) -> Result<T::V, ParseErrorV> {
    match r {
        Ok(v) => Ok(v@),
        Err(e) => Err(e@),
    }
}

impl ParseError {
    #[verifier::type_invariant]
    spec fn stops_within_input(self) -> bool {
        &&& self.position <= self.input@.len()
        &&& self.offset == utf8_len(self.input@.take(self.position as int))
    }

    fn new(input: &str, chars: &Vec<char>, e: Failure) -> (r: ParseError)
        requires
            chars@ == input@,
            e.pos <= chars@.len(),
        ensures
            r@ == reported(input@, e@),
    {
        let offset = byte_offset(input, chars, e.pos);
        ParseError { input: input.to_owned(), offset, position: e.pos, context: e.context }
    }

    /// The text that was parsed.
    pub fn input(&self) -> (r: &str)
        ensures
            r@ == self@.input,
    {
        self.input.as_str()
    }

    /// Byte offset, in the input, where parsing stopped.
    pub fn offset(&self) -> (r: usize)
        ensures
            r == self@.offset,
    {
        self.offset
    }

    /// Character position, in the input, where parsing stopped.
    pub fn position(&self) -> (r: usize)
        ensures
            r == self@.position,
    {
        self.position
    }

    /// What was being parsed when parsing stopped, innermost first.
    pub fn context(&self) -> (r: &[Context])
        ensures
            r@ == self@.context,
    {
        self.context.as_slice()
    }

    /// The error as text: where parsing stopped, the line it stopped in, and
    /// what was being parsed (see [`report::message_text`]).
    pub fn message(&self) -> (r: String)
        ensures
            r@ == report::message_text(self@.input, self@.position as int, self@.context),
    {
        proof {
            use_type_invariant(self);
        }
        let s = chars_of(self.input.as_str());
        report::message(&s, self.position, self.context.as_slice())
    }
}

/// Parses a whole definition file.
pub fn parse_document(input: &str) -> (r: Result<DefinitionFile, ParseError>)
    ensures
        result_view(r) == outcome(input@, grammar::sections(input@, 0, grammar::empty_file())),
{
    let s = chars_of(input);
    match parser::sections(&s) {
        Ok((d, j)) => if j == s.len() {
            Ok(d)
        } else {
            Err(ParseError::new(input, &s, Failure { cut: false, context: Vec::new(), pos: j }))
        },
        Err(e) => Err(ParseError::new(input, &s, e)),
    }
}

/// Parses text that is exactly one section: a `[name]` header and its field lines.
pub fn parse_section(input: &str) -> (r: Result<(String, Vec<Field>), ParseError>)
    ensures
        match (r, outcome(input@, grammar::section(input@, 0))) {
            (Ok((h, fs)), Ok((sh, sfs))) => h@ == sh && fields_view(fs@) == sfs,
            (Err(e), Err(se)) => e@ == se,
            _ => false,
        },
{
    let s = chars_of(input);
    match parser::section(&s, 0) {
        Ok((v, j)) => if j == s.len() {
            Ok(v)
        } else {
            Err(ParseError::new(input, &s, Failure { cut: false, context: Vec::new(), pos: j }))
        },
        Err(e) => Err(ParseError::new(input, &s, e)),
    }
}

/// Parses text that is exactly one field line.
pub fn parse_line(input: &str) -> (r: Result<Field, ParseError>)
    ensures
        result_view(r) == outcome(input@, grammar::field_line(input@, 0)),
{
    let s = chars_of(input);
    match parser::field_line(&s, 0) {
        Ok((f, j)) => if j == s.len() {
            Ok(f)
        } else {
            Err(ParseError::new(input, &s, Failure { cut: false, context: Vec::new(), pos: j }))
        },
        Err(e) => Err(ParseError::new(input, &s, e)),
    }
}

} // verus!

pub mod grammar;
pub mod parser;
pub mod report;
pub mod laws;
