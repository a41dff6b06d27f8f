use vstd::prelude::*;

verus! {

/// The semantic role a fragment of source text plays.
#[derive(Clone, Copy, Debug, PartialEq, Eq, Structural)]
pub enum Class {
    // If nothing else
    Default,
    // General
    PreludeType,
    Type,
    Keyword,
    Comment,
    Operator,
    Attribute,
    // Literals
    NumberLit,
    StringLit,
    BoolLit,
    // Contextual
    Param,
    MacParam,
    CrateDecl,
    UseDecl,
    VarDecl,
    FnDecl,
    MacDecl,
    TyDecl,
    FieldDecl,
    VariantDecl,
    LifeTimeDecl,
    GenDecl,
    GenConstraint,
    Gen,
    LifeTime,
    FnCall,
    ReturnStmt,
    MacCall,
}

/// Whether a name is being introduced or used.
#[derive(Clone, Copy, Debug, PartialEq, Eq, Structural)]
pub enum Context {
    Declaration,
    Reference,
}

} // verus!
