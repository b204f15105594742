//! Highlighted spans: the classification result handed to a renderer.

use crate::token::Token;
use vstd::prelude::*;

verus! {

/// The closed set of syntactic categories a span can be assigned.
#[derive(Clone, Copy, Debug, PartialEq, Eq, Structural)]
pub enum HighlightGroup {
    /// a keyword: `fn`, `struct`, `trait`, `let`, `use`, `type`
    OtherKeyword,
    /// the name of a function when defined
    FunctionDef,
    /// the name of a function when called
    FunctionCall,
    /// the name of a type when defined
    TyDef,
    /// the name of a type when used
    TyUse,
    /// the name of a trait when defined
    InterfaceDef,
    /// a primitive type baked into the language, such as `u32`
    PrimitiveTy,
    /// the name of a variable when defined
    VariableDef,
    /// the name of a variable when used
    VariableUse,
    /// the name of a member when used, as in a field access
    MemberUse,
    /// the name of a module when used, as in a `use` path
    ModuleUse,
    /// a number literal
    Number,
    /// a string literal
    StringLit,
    /// a character literal
    CharLit,
    /// an operator that accesses the members of something: `.`
    MemberOper,
    /// an operator relating to pointers: `*`, `&`, `&mut`
    PointerOper,
    /// an operator that assigns a value to a binding: `=`
    AssignOper,
    /// any operator not covered by the other variants: `?`
    OtherOper,
    /// a delimiter: `(`, `)`, `{`, `}`
    Delimiter,
    /// a separator: `,`, `::`, `->`
    Separator,
    /// a terminator: `;`
    Terminator,
    /// a malformed or unexpected region
    Error,
}

/// A contiguous byte range of the input with zero or one highlight group.
///
/// `group == None` marks insignificant text: whitespace and inter-token gaps.
#[derive(Clone, Copy, Debug, PartialEq, Eq, Structural)]
pub struct HighlightedSpan {
    /// the byte offset at which the span starts
    pub start: usize,
    /// the byte offset just past the span's last byte
    pub end: usize,
    /// the group assigned to the span, or `None` for insignificant text
    pub group: Option<HighlightGroup>,
}

/// The span that classifies one token with the given group.
pub open spec fn span_for(t: Token, group: HighlightGroup) -> HighlightedSpan {
    HighlightedSpan { start: t.start, end: t.end, group: Some(group) }
}

} // verus!
