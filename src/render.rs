use vstd::prelude::*;
use crate::classify::{classify_crate, crate_frags};
use crate::fragment::{Frag, SpanToken, classes_of, frags_of, texts_of};
use crate::restore::{RestoreError, chars_of, restore_spec, restore_whitespace};
use crate::style::ToCss;
use crate::tree::Crate;

verus! {

/// The markup text that stands for one character.
pub open spec fn escape_char(c: char) -> Seq<char> {
    if c == '<' {
        "&lt;"@
    } else if c == '>' {
        "&gt;"@
    } else if c == '&' {
        "&amp;"@
    } else if c == '"' {
        "&quot;"@
    } else {
        seq![c]
    }
}

/// Text with every markup character replaced by its entity.
pub open spec fn escape(s: Seq<char>) -> Seq<char>
    decreases s.len(),
{
    if s.len() == 0 {
        Seq::empty()
    } else {
        escape(s.drop_last()) + escape_char(s.last())
    }
}

/// One inline element.
pub open spec fn span_markup(attr: Seq<char>, text: Seq<char>) -> Seq<char> {
    "<span "@ + attr + ">"@ + escape(text) + "</span>"@
}

/// One inline element per text, in order, each with the attribute text at
/// the same position.
pub open spec fn layout(attrs: Seq<Seq<char>>, texts: Seq<Seq<char>>) -> Seq<char>
    decreases texts.len(),
{
    if texts.len() == 0 {
        Seq::empty()
    } else {
        layout(attrs.drop_last(), texts.drop_last()) + span_markup(attrs.last(), texts.last())
    }
}

pub open spec fn markup_open() -> Seq<char> {
    "<pre style=\"background:#efffef\"><code>"@
}

pub open spec fn markup_close() -> Seq<char> {
    "</code></pre>"@
}

/// The attribute text of each fragment under a style.
pub open spec fn style_attrs<S: ToCss>(frags: Seq<Frag>, style: S) -> Seq<Seq<char>> {
    frags.map_values(|f: Frag| style.css(f.0))
}

/// The markup of a list of fragments under a style.
pub open spec fn markup<S: ToCss>(frags: Seq<Frag>, style: S) -> Seq<char> {
    markup_open() + layout(style_attrs(frags, style), texts_of(frags)) + markup_close()
}

/// Fragments with the classes of `frags` and the given texts.
pub open spec fn with_texts(frags: Seq<Frag>, texts: Seq<Seq<char>>) -> Seq<Frag> {
    Seq::new(frags.len(), |i: int| (frags[i].0, texts[i]))
}

/// Rendering the same fragments twice under the same style gives the same
/// markup.
pub proof fn lemma_render_idempotent<S: ToCss>(
    tokens: Seq<SpanToken>,
    style: S,
    first: Seq<char>,
    second: Seq<char>,
)
    requires
        first == markup(frags_of(tokens), style),
        second == markup(frags_of(tokens), style),
    ensures
        first == second,
{
}

/// Rendering the same fragments under two styles lays out the same texts in
/// the same order; only the attribute text of each element differs, and where
/// the two styles agree on every class present the markup is the same.
pub proof fn lemma_style_substitutable<A: ToCss, B: ToCss>(frags: Seq<Frag>, a: A, b: B)
    ensures
        markup(frags, a) == markup_open() + layout(style_attrs(frags, a), texts_of(frags))
            + markup_close(),
        markup(frags, b) == markup_open() + layout(style_attrs(frags, b), texts_of(frags))
            + markup_close(),
        style_attrs(frags, a).len() == frags.len(),
        style_attrs(frags, b).len() == frags.len(),
        (forall|i: int| 0 <= i < frags.len() ==> a.css(#[trigger] frags[i].0) == b.css(frags[i].0))
            ==> markup(frags, a) == markup(frags, b),
{
    if forall|i: int| 0 <= i < frags.len() ==> a.css(#[trigger] frags[i].0) == b.css(frags[i].0) {
        assert(style_attrs(frags, a) =~= style_attrs(frags, b));
    }
}

/// The text with `&`, `<`, `>` and `"` replaced by their entities.
pub fn escape_text(s: &str) -> (r: String)
    ensures
        r@ == escape(s@),
{
    let cs = chars_of(s);
    let n = cs.len();
    let mut r = String::new();
    let mut run: usize = 0;
    let mut i: usize = 0;
    assert(s@.take(0) =~= Seq::<char>::empty());
    assert(s@.subrange(0, 0) =~= Seq::<char>::empty());
    assert(r@ + Seq::<char>::empty() =~= r@);
    while i < n
        invariant
            cs@ == s@,
            n == s@.len(),
            run <= i <= n,
            r@ + s@.subrange(run as int, i as int) == escape(s@.take(i as int)),
        decreases n - i,
    {
        let c = cs[i];
        let ghost t = s@.take(i + 1);
        assert(t.drop_last() =~= s@.take(i as int));
        assert(t.last() == c);
        if c != '<' && c != '>' && c != '&' && c != '"' {
            proof {
                assert(escape_char(c) == seq![c]);
                assert(s@.subrange(run as int, i + 1) =~= s@.subrange(run as int, i as int).push(c));
                assert(r@ + s@.subrange(run as int, i + 1) =~= (r@ + s@.subrange(run as int, i as int)) + seq![c]);
            }
        } else {
            r.append(s.substring_char(run, i));
            let ghost mid = r@;
            if c == '<' {
                r.append("&lt;");
            } else if c == '>' {
                r.append("&gt;");
            } else if c == '&' {
                r.append("&amp;");
            } else {
                r.append("&quot;");
            }
            proof {
                assert(r@ == mid + escape_char(c));
                assert(s@.subrange((i + 1) as int, i + 1) =~= Seq::<char>::empty());
                assert(r@ + s@.subrange(i + 1, i + 1) =~= r@);
            }
            run = i + 1;
        }
        i += 1;
    }
    r.append(s.substring_char(run, n));
    assert(s@.take(n as int) =~= s@);
    r
}

/// The markup of restored fragments: a block wrapper holding one inline
/// element per fragment, in order, whose attributes come from the style and
/// whose content is the fragment's escaped text.
pub fn render<S: ToCss>(tokens: &Vec<SpanToken>, style: &S) -> (r: String)
    ensures
        r@ == markup(frags_of(tokens@), *style),
{
    let ghost f = frags_of(tokens@);
    let mut r = String::from_str("<pre style=\"background:#efffef\"><code>");
    let mut k: usize = 0;
    assert(f.take(0) =~= Seq::<Frag>::empty());
    assert(texts_of(f.take(0)) =~= Seq::<Seq<char>>::empty());
    assert(r@ + Seq::<char>::empty() =~= r@);
    while k < tokens.len()
        invariant
            f == frags_of(tokens@),
            k <= tokens@.len(),
            r@ == markup_open() + layout(style_attrs(f.take(k as int), *style), texts_of(f.take(k as int))),
        decreases tokens@.len() - k,
    {
        let tok = &tokens[k];
        let ghost before = r@;
        r.append("<span ");
        let attr = style.to_css(&tok.class);
        r.append(attr.as_str());
        r.append(">");
        let text = escape_text(tok.text.as_str());
        r.append(text.as_str());
        r.append("</span>");
        proof {
            let t = f.take(k + 1);
            assert(style_attrs(t, *style).drop_last() =~= style_attrs(f.take(k as int), *style));
            assert(texts_of(t).drop_last() =~= texts_of(f.take(k as int)));
            assert(t.last() == tok@);
            assert(style_attrs(t, *style).last() == style.css(tok.class));
            assert(texts_of(t).last() == tok.text@);
            assert(r@ =~= markup_open() + layout(style_attrs(t, *style), texts_of(t)));
        }
        k += 1;
    }
    r.append("</code></pre>");
    assert(f.take(k as int) =~= f);
    r
}

/// Highlights fragments of any unit, in source order: puts back the source
/// text between them and renders the result under `style`. Fails when a
/// fragment's text cannot be found, in order, in `src`.
pub fn highlight_fragments<S: ToCss>(src: &str, tokens: &Vec<SpanToken>, style: &S) -> (r: Result<
    String,
    RestoreError,
>)
    ensures
        match restore_spec(src@, texts_of(frags_of(tokens@)), 0) {
            Some((out, _)) => r is Ok && r->Ok_0@ == markup(with_texts(frags_of(tokens@), out), *style),
            None => r is Err,
        },
{
    match restore_whitespace(src, tokens) {
        Ok(restored) => {
            proof {
                let f = frags_of(tokens@);
                let out = restore_spec(src@, texts_of(f), 0)->Some_0.0;
                let g = frags_of(restored@);
                assert(classes_of(g).len() == classes_of(f).len());
                assert forall|i: int| 0 <= i < g.len() implies g[i] == with_texts(f, out)[i] by {
                    assert(classes_of(g)[i] == classes_of(f)[i]);
                    assert(texts_of(g)[i] == out[i]);
                }
                assert(g =~= with_texts(f, out));
            }
            Ok(render(&restored, style))
        },
        Err(e) => Err(e),
    }
}

/// Highlights a compilation unit: classifies the tree, puts back the source
/// text between fragments, and renders the result under `style`. Fails when a
/// fragment's text cannot be found, in order, in `src`.
pub fn program<S: ToCss>(src: &str, krate: &Crate, style: &S) -> (r: Result<String, RestoreError>)
    ensures
        match restore_spec(src@, texts_of(crate_frags(*krate)), 0) {
            Some((out, _)) => r is Ok && r->Ok_0@ == markup(
                with_texts(crate_frags(*krate), out),
                *style,
            ),
            None => r is Err,
        },
{
    let tokens = classify_crate(krate);
    highlight_fragments(src, &tokens, style)
}

} // verus!
