use highlightrs::class::Class;
use highlightrs::classify::{classify_crate, classify_generics, classify_ty};
use highlightrs::class::Context;
use highlightrs::fragment::SpanToken;
use highlightrs::render::{escape_text, program, render};
use highlightrs::restore::{find_at_or_after, restore_whitespace};
use highlightrs::style::{DefaultInline, StyleSheet, ToCss};
use highlightrs::tree::{
    Crate, Generics, Item, ItemKind, ModPath, PathSegment, Ty, TyPath, ViewItem, ViewItemKind,
    ViewPath,
};

fn s(x: &str) -> String {
    x.to_string()
}

fn strs(xs: &[&str]) -> Vec<String> {
    xs.iter().map(|x| x.to_string()).collect()
}

fn path_ty(global: bool, segs: Vec<(&str, Vec<Ty>)>) -> Ty {
    Ty::Path(TyPath {
        global,
        segments: segs
            .into_iter()
            .map(|(id, types)| PathSegment { identifier: s(id), types })
            .collect(),
    })
}

fn type_item(name: &str, lifetimes: &[&str], params: &[&str], ty: Ty) -> Item {
    Item {
        attrs: vec![],
        public: false,
        ident: s(name),
        node: ItemKind::Ty(
            ty,
            Generics { lifetimes: strs(lifetimes), ty_params: strs(params) },
        ),
    }
}

fn use_item(vp: ViewPath) -> ViewItem {
    ViewItem { attrs: vec![], public: false, node: ViewItemKind::Use(vp) }
}

fn pairs(toks: &[SpanToken]) -> Vec<(Class, String)> {
    toks.iter().map(|t| (t.class, t.text.clone())).collect()
}

fn texts(toks: &[SpanToken]) -> Vec<String> {
    toks.iter().map(|t| t.text.clone()).collect()
}

fn tok(c: Class, t: &str) -> SpanToken {
    SpanToken::new(c, s(t))
}

#[test]
fn type_alias_declaration_and_reference() {
    let krate = Crate {
        view_items: vec![],
        items: vec![type_item("Foo", &[], &["T"], path_ty(false, vec![("T", vec![])]))],
    };
    let toks = classify_crate(&krate);
    assert_eq!(
        pairs(&toks),
        vec![
            (Class::Keyword, s("type")),
            (Class::TyDecl, s("Foo")),
            (Class::Operator, s("<")),
            (Class::GenDecl, s("T")),
            (Class::Operator, s(">")),
            (Class::Operator, s("=")),
            (Class::Type, s("T")),
            (Class::Operator, s(";")),
        ]
    );
    assert_ne!(toks[6].class, Class::GenDecl);
}

#[test]
fn use_list_has_one_separator_between_names() {
    let krate = Crate {
        view_items: vec![use_item(ViewPath::List(
            ModPath { global: false, segments: strs(&["a", "b"]) },
            strs(&["C", "D"]),
        ))],
        items: vec![],
    };
    let toks = classify_crate(&krate);
    assert_eq!(
        pairs(&toks),
        vec![
            (Class::Keyword, s("use")),
            (Class::Default, s("a")),
            (Class::Operator, s("::")),
            (Class::Default, s("b")),
            (Class::Operator, s("::")),
            (Class::Operator, s("{")),
            (Class::UseDecl, s("C")),
            (Class::Operator, s(",")),
            (Class::UseDecl, s("D")),
            (Class::Operator, s("}")),
            (Class::Operator, s(";")),
        ]
    );
    let commas = toks.iter().filter(|t| t.text == ",").count();
    assert_eq!(commas, 1);
}

#[test]
fn empty_generics_give_no_brackets() {
    let krate = Crate {
        view_items: vec![],
        items: vec![type_item("Ptrs", &[], &[], path_ty(false, vec![("T", vec![])]))],
    };
    let toks = classify_crate(&krate);
    assert!(toks.iter().all(|t| t.text != "<" && t.text != ">"));
    assert_eq!(texts(&toks), strs(&["type", "Ptrs", "=", "T", ";"]));

    let mut out = Vec::new();
    classify_generics(&Generics { lifetimes: vec![], ty_params: vec![] }, Context::Declaration, &mut out);
    assert!(out.is_empty());
}

#[test]
fn generics_with_lifetimes_and_params() {
    let mut out = Vec::new();
    classify_generics(
        &Generics { lifetimes: strs(&["'a", "'b"]), ty_params: strs(&["T1", "T2"]) },
        Context::Declaration,
        &mut out,
    );
    assert_eq!(
        pairs(&out),
        vec![
            (Class::Operator, s("<")),
            (Class::LifeTimeDecl, s("'a")),
            (Class::Operator, s(",")),
            (Class::LifeTimeDecl, s("'b")),
            (Class::Operator, s(",")),
            (Class::GenDecl, s("T1")),
            (Class::Operator, s(",")),
            (Class::GenDecl, s("T2")),
            (Class::Operator, s(">")),
        ]
    );
    let mut refs = Vec::new();
    classify_generics(
        &Generics { lifetimes: strs(&["'l"]), ty_params: vec![] },
        Context::Reference,
        &mut refs,
    );
    assert_eq!(
        pairs(&refs),
        vec![(Class::Operator, s("<")), (Class::LifeTime, s("'l")), (Class::Operator, s(">"))]
    );
}

#[test]
fn multi_segment_type_path_with_arguments() {
    let ty = path_ty(
        false,
        vec![
            ("ptr", vec![]),
            (
                "Ptr",
                vec![path_ty(false, vec![("T1", vec![])]), path_ty(true, vec![("std", vec![]), ("T2", vec![])])],
            ),
        ],
    );
    let mut out = Vec::new();
    classify_ty(&ty, Context::Reference, &mut out);
    assert_eq!(
        pairs(&out),
        vec![
            (Class::Default, s("ptr")),
            (Class::Operator, s("::")),
            (Class::Type, s("Ptr")),
            (Class::Operator, s("<")),
            (Class::Type, s("T1")),
            (Class::Operator, s(",")),
            (Class::Operator, s("::")),
            (Class::Default, s("std")),
            (Class::Operator, s("::")),
            (Class::Type, s("T2")),
            (Class::Operator, s(">")),
        ]
    );
}

#[test]
fn vector_types() {
    let inner = path_ty(false, vec![("Box", vec![path_ty(false, vec![("T", vec![])])])]);
    let mut out = Vec::new();
    classify_ty(&Ty::FixedLengthVec(Box::new(inner), s("4")), Context::Reference, &mut out);
    assert_eq!(
        texts(&out),
        strs(&["[", "Box", "<", "T", ">", ",", "..", "4", "]"])
    );
    assert_eq!(out[7].class, Class::NumberLit);

    let mut out2 = Vec::new();
    classify_ty(&Ty::Vec(Box::new(Ty::Verbatim(s("&str")))), Context::Reference, &mut out2);
    assert_eq!(
        pairs(&out2),
        vec![(Class::Operator, s("[")), (Class::Default, s("&str")), (Class::Operator, s("]"))]
    );
}

#[test]
fn extern_crate_glob_and_renamed_imports() {
    let krate = Crate {
        view_items: vec![
            ViewItem {
                attrs: strs(&["#[phase(plugin)]"]),
                public: false,
                node: ViewItemKind::ExternCrate(s("highlightrs")),
            },
            use_item(ViewPath::Glob(ModPath { global: true, segments: strs(&["highlightrs", "highlight"]) })),
            ViewItem {
                attrs: vec![],
                public: true,
                node: ViewItemKind::Use(ViewPath::Simple(
                    ModPath { global: false, segments: strs(&["syntax", "ptr"]) },
                    Some(s("p")),
                )),
            },
        ],
        items: vec![],
    };
    let toks = classify_crate(&krate);
    assert_eq!(
        pairs(&toks),
        vec![
            (Class::Attribute, s("#[phase(plugin)]")),
            (Class::Keyword, s("extern")),
            (Class::Keyword, s("crate")),
            (Class::CrateDecl, s("highlightrs")),
            (Class::Operator, s(";")),
            (Class::Keyword, s("use")),
            (Class::Operator, s("::")),
            (Class::Default, s("highlightrs")),
            (Class::Operator, s("::")),
            (Class::Default, s("highlight")),
            (Class::Operator, s("::")),
            (Class::UseDecl, s("*")),
            (Class::Operator, s(";")),
            (Class::Keyword, s("pub")),
            (Class::Keyword, s("use")),
            (Class::Default, s("syntax")),
            (Class::Operator, s("::")),
            (Class::Default, s("ptr")),
            (Class::Keyword, s("as")),
            (Class::UseDecl, s("p")),
            (Class::Operator, s(";")),
        ]
    );
}

#[test]
fn simple_import_declares_last_segment() {
    let krate = Crate {
        view_items: vec![use_item(ViewPath::Simple(
            ModPath { global: false, segments: strs(&["syntax", "ptr"]) },
            None,
        ))],
        items: vec![],
    };
    assert_eq!(
        pairs(&classify_crate(&krate)),
        vec![
            (Class::Keyword, s("use")),
            (Class::Default, s("syntax")),
            (Class::Operator, s("::")),
            (Class::UseDecl, s("ptr")),
            (Class::Operator, s(";")),
        ]
    );
}

#[test]
fn item_without_rule_is_one_default_fragment() {
    let krate = Crate {
        view_items: vec![],
        items: vec![Item {
            attrs: vec![],
            public: true,
            ident: s("main"),
            node: ItemKind::Verbatim(s("fn main() {}")),
        }],
    };
    assert_eq!(
        pairs(&classify_crate(&krate)),
        vec![(Class::Keyword, s("pub")), (Class::Default, s("fn main() {}"))]
    );
}

#[test]
fn restore_prefixes_whitespace_and_round_trips() {
    let src = "  use a::b::{C,  D};\n // end\n";
    let krate = Crate {
        view_items: vec![use_item(ViewPath::List(
            ModPath { global: false, segments: strs(&["a", "b"]) },
            strs(&["C", "D"]),
        ))],
        items: vec![],
    };
    let toks = classify_crate(&krate);
    let restored = restore_whitespace(src, &toks).ok().unwrap();
    assert_eq!(restored.len(), toks.len());
    assert_eq!(restored[0].text, "  use");
    assert_eq!(restored[1].text, " a");
    assert_eq!(restored[8].text, "  D");
    for (a, b) in restored.iter().zip(toks.iter()) {
        assert_eq!(a.class, b.class);
    }
    let joined: String = texts(&restored).concat();
    assert!(src.starts_with(&joined));
    let rest = &src[joined.len()..];
    assert_eq!(rest, "\n // end\n");
    assert_eq!(format!("{}{}", joined, rest), src);
}

#[test]
fn restore_fails_on_missing_text() {
    let toks = vec![tok(Class::Keyword, "type"), tok(Class::TyDecl, "Bar")];
    let err = restore_whitespace("type Foo = T;", &toks).err().unwrap();
    assert_eq!(err.index, 1);
    assert_eq!(err.class, Class::TyDecl);
    assert_eq!(err.text, "Bar");
    assert_eq!(err.position, 4);
    assert!(err.message().contains("Bar"));
}

#[test]
fn restore_fails_on_text_out_of_order() {
    let toks = vec![tok(Class::Default, "b"), tok(Class::Default, "a")];
    let err = restore_whitespace("a b", &toks).err().unwrap();
    assert_eq!(err.index, 1);
    assert_eq!(err.position, 3);
}

#[test]
fn restore_of_nothing_is_nothing() {
    let restored = restore_whitespace("  x  ", &vec![]).ok().unwrap();
    assert!(restored.is_empty());
}

#[test]
fn find_takes_first_occurrence_from_cursor() {
    let hay: Vec<char> = "abcabc".chars().collect();
    let needle: Vec<char> = "bc".chars().collect();
    assert_eq!(find_at_or_after(&hay, &needle, 0), Some(1));
    assert_eq!(find_at_or_after(&hay, &needle, 2), Some(4));
    assert_eq!(find_at_or_after(&hay, &needle, 5), None);
}

#[test]
fn escape_replaces_markup_characters() {
    assert_eq!(escape_text("a<b>&\"c\""), "a&lt;b&gt;&amp;&quot;c&quot;");
    assert_eq!(escape_text(""), "");
    assert_eq!(escape_text("plain"), "plain");
}

#[test]
fn styles_map_classes() {
    assert_eq!(StyleSheet.to_css(&Class::Type), "class=\".type\"");
    assert_eq!(StyleSheet.to_css(&Class::PreludeType), "class=\".prelude-type\"");
    assert_eq!(StyleSheet.to_css(&Class::Keyword), "class=\".default\"");
    assert_eq!(DefaultInline.to_css(&Class::Keyword), "style=\"color:#ea4646;font-weight:bold\"");
    assert_eq!(DefaultInline.to_css(&Class::GenDecl), "style=\"color:#f4824e\"");
    assert_eq!(DefaultInline.to_css(&Class::LifeTimeDecl), "style=\"color:#ff4242\"");
    assert_eq!(DefaultInline.to_css(&Class::Gen), "style=\"\"");
}

#[test]
fn render_wraps_and_escapes() {
    let toks = vec![tok(Class::Keyword, "type"), tok(Class::Default, " a<b")];
    let html = render(&toks, &StyleSheet);
    assert_eq!(
        html,
        "<pre style=\"background:#efffef\"><code><span class=\".default\">type</span><span class=\".default\"> a&lt;b</span></code></pre>"
    );
    assert_eq!(render(&vec![], &StyleSheet), "<pre style=\"background:#efffef\"><code></code></pre>");
}

#[test]
fn render_twice_is_identical() {
    let toks = vec![tok(Class::Keyword, "use"), tok(Class::UseDecl, " x")];
    assert_eq!(render(&toks, &DefaultInline), render(&toks, &DefaultInline));
}

#[test]
fn styles_change_only_attributes() {
    let toks = vec![tok(Class::Keyword, "use"), tok(Class::UseDecl, " x"), tok(Class::Operator, ";")];
    let a = render(&toks, &StyleSheet);
    let b = render(&toks, &DefaultInline);
    assert_ne!(a, b);
    let contents = |h: &str| -> Vec<String> {
        h.split("<span ")
            .skip(1)
            .map(|p| p.split_once('>').unwrap().1.split("</span>").next().unwrap().to_string())
            .collect()
    };
    assert_eq!(contents(&a), contents(&b));
    assert_eq!(contents(&a), strs(&["use", " x", ";"]));
}

#[test]
fn program_highlights_a_unit() {
    let src = "\n    use syntax::ptr;\n\n    type Box<'l, T> = ptr::Ptr<T>;\n    ";
    let krate = Crate {
        view_items: vec![use_item(ViewPath::Simple(
            ModPath { global: false, segments: strs(&["syntax", "ptr"]) },
            None,
        ))],
        items: vec![type_item(
            "Box",
            &["'l"],
            &["T"],
            path_ty(false, vec![("ptr", vec![]), ("Ptr", vec![path_ty(false, vec![("T", vec![])])])]),
        )],
    };
    let html = program(src, &krate, &DefaultInline).ok().unwrap();
    assert!(html.starts_with("<pre style=\"background:#efffef\"><code><span style=\"color:#ea4646;font-weight:bold\">\n    use</span>"));
    assert!(html.contains("<span style=\"color:#f4824e\"> Box</span>"));
    assert!(html.contains("<span style=\"color:#ff4242\">&lt;'l</span>") == false);
    assert!(html.contains("<span style=\"color:#ff4242\">'l</span>"));
    assert!(html.ends_with("<span style=\"color:#07c7dd\">;</span></code></pre>"));
    assert_eq!(html.matches("<span ").count(), 20);
}

#[test]
fn program_reports_mismatch() {
    let krate = Crate {
        view_items: vec![],
        items: vec![type_item("Foo", &[], &[], path_ty(false, vec![("T", vec![])]))],
    };
    let err = program("type Bar = T;", &krate, &StyleSheet).err().unwrap();
    assert_eq!(err.index, 1);
    assert_eq!(err.text, "Foo");
}

#[test]
fn highlight_a_single_type() {
    let mut toks = Vec::new();
    classify_ty(&Ty::Vec(Box::new(Ty::Verbatim(s("u8")))), Context::Reference, &mut toks);
    let html = highlightrs::render::highlight_fragments("[ u8 ]", &toks, &StyleSheet).ok().unwrap();
    assert_eq!(
        html,
        "<pre style=\"background:#efffef\"><code><span class=\".default\">[</span><span class=\".default\"> u8</span><span class=\".default\"> ]</span></code></pre>"
    );
}
