use vstd::prelude::*;
use crate::class::Class;

verus! {

/// A classified piece of text.
pub struct SpanToken {
    pub class: Class,
    pub text: String,
}

/// The model of a fragment: its class and its characters.
pub type Frag = (Class, Seq<char>);

impl View for SpanToken {
    type V = Frag;

    open spec fn view(&self) -> Frag {
        (self.class, self.text@)
    }
}

/// The models of a list of fragments, in order.
pub open spec fn frags_of(v: Seq<SpanToken>) -> Seq<Frag> {
    v.map_values(|t: SpanToken| t@)
}

/// The texts of a list of fragment models, in order.
pub open spec fn texts_of(f: Seq<Frag>) -> Seq<Seq<char>> {
    f.map_values(|x: Frag| x.1)
}

/// The classes of a list of fragment models, in order.
pub open spec fn classes_of(f: Seq<Frag>) -> Seq<Class> {
    f.map_values(|x: Frag| x.0)
}

/// All texts of a list joined end to end.
pub open spec fn concat(texts: Seq<Seq<char>>) -> Seq<char>
    decreases texts.len(),
{
    if texts.len() == 0 {
        Seq::empty()
    } else {
        texts[0] + concat(texts.drop_first())
    }
}

/// A single fragment of the given class and text.
pub open spec fn one(c: Class, s: Seq<char>) -> Seq<Frag> {
    seq![(c, s)]
}

impl SpanToken {
    pub fn new(class: Class, text: String) -> (r: SpanToken)
        ensures
            r@ == (class, text@),
    {
        SpanToken { class, text }
    }
}

/// Appends a fragment of class `c` whose text is `s`.
pub fn push_tok(out: &mut Vec<SpanToken>, c: Class, s: &str)
    ensures
        frags_of(final(out)@) == frags_of(old(out)@) + one(c, s@),
{
    let t = SpanToken::new(c, String::from_str(s));
    out.push(t);
    assert(frags_of(final(out)@) =~= frags_of(old(out)@) + one(c, s@));
}

} // verus!
