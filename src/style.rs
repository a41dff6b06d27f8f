use vstd::prelude::*;
use crate::class::Class;

verus! {

/// A mapping from classes to the attribute text of the element that shows a
/// fragment. It decides only how a fragment looks, never how it is classified.
pub trait ToCss {
    /// The attribute text for a class.
    spec fn css(&self, clazz: Class) -> Seq<char>;

    fn to_css(&self, clazz: &Class) -> (r: String)
        ensures
            r@ == self.css(*clazz),
    ;
}

/// Class names for an external stylesheet.
#[derive(Clone, Copy, Debug)]
pub struct StyleSheet;

/// Inline style declarations.
#[derive(Clone, Copy, Debug)]
pub struct DefaultInline;

pub open spec fn style_sheet_css(c: Class) -> Seq<char> {
    match c {
        Class::Type => "class=\".type\""@,
        Class::PreludeType => "class=\".prelude-type\""@,
        _ => "class=\".default\""@,
    }
}

pub open spec fn default_inline_css(c: Class) -> Seq<char> {
    match c {
        Class::Keyword => "style=\"color:#ea4646;font-weight:bold\""@,
        Class::Operator => "style=\"color:#07c7dd\""@,
        Class::CrateDecl => "style=\"color:#f4824e\""@,
        Class::UseDecl | Class::GenDecl | Class::TyDecl => "style=\"color:#f4824e\""@,
        Class::LifeTimeDecl => "style=\"color:#ff4242\""@,
        Class::Attribute => "style=\"color:#7f7f7f\""@,
        Class::Type => "style=\"color:#000000\""@,
        Class::PreludeType => "style=\"color:#00ff0b\""@,
        _ => "style=\"\""@,
    }
}

impl ToCss for StyleSheet {
    open spec fn css(&self, clazz: Class) -> Seq<char> {
        style_sheet_css(clazz)
    }

    fn to_css(&self, clazz: &Class) -> (r: String) {
        let s = match *clazz {
            Class::Type => "class=\".type\"",
            Class::PreludeType => "class=\".prelude-type\"",
            _ => "class=\".default\"",
        };
        String::from_str(s)
    }
}

impl ToCss for DefaultInline {
    open spec fn css(&self, clazz: Class) -> Seq<char> {
        default_inline_css(clazz)
    }

    fn to_css(&self, clazz: &Class) -> (r: String) {
        let s = match *clazz {
            Class::Keyword => "style=\"color:#ea4646;font-weight:bold\"",
            Class::Operator => "style=\"color:#07c7dd\"",
            Class::CrateDecl => "style=\"color:#f4824e\"",
            Class::UseDecl | Class::GenDecl | Class::TyDecl => "style=\"color:#f4824e\"",
            Class::LifeTimeDecl => "style=\"color:#ff4242\"",
            Class::Attribute => "style=\"color:#7f7f7f\"",
            Class::Type => "style=\"color:#000000\"",
            Class::PreludeType => "style=\"color:#00ff0b\"",
            _ => "style=\"\"",
        };
        String::from_str(s)
    }
}

} // verus!
