use vstd::prelude::*;
use crate::class::Class;
use crate::fragment::{SpanToken, frags_of, texts_of, classes_of, concat};

verus! {

/// `t` occurs in `s` starting at index `i`.
pub open spec fn occurs_at(s: Seq<char>, t: Seq<char>, i: int) -> bool {
    0 <= i && i + t.len() <= s.len() && s.subrange(i, i + t.len()) == t
}

/// The first index at or after `from` where `t` occurs in `s`.
pub open spec fn find_from(s: Seq<char>, t: Seq<char>, from: int) -> Option<int>
    decreases s.len() + 1 - from,
{
    if from < 0 || from + t.len() > s.len() {
        None
    } else if occurs_at(s, t, from) {
        Some(from)
    } else {
        find_from(s, t, from + 1)
    }
}

/// A found index is at or after `from`, and `t` occurs there.
pub proof fn lemma_find_from(s: Seq<char>, t: Seq<char>, from: int)
    ensures
        find_from(s, t, from) matches Some(i) ==> from <= i && occurs_at(s, t, i),
    decreases s.len() + 1 - from,
{
    if !(from < 0 || from + t.len() > s.len()) && !occurs_at(s, t, from) {
        lemma_find_from(s, t, from + 1);
    }
}

/// Restoration of `texts` against `s`, starting at cursor `from`: each text is
/// prefixed with what lies between the cursor and its first occurrence, and
/// the cursor moves past that occurrence. The result holds the restored texts
/// and the final cursor, or nothing where some text is not found.
pub open spec fn restore_spec(s: Seq<char>, texts: Seq<Seq<char>>, from: int) -> Option<
    (Seq<Seq<char>>, int),
>
    decreases texts.len(),
{
    if texts.len() == 0 {
        Some((Seq::empty(), from))
    } else {
        match find_from(s, texts[0], from) {
            None => None,
            Some(i) => match restore_spec(s, texts.drop_first(), i + texts[0].len()) {
                None => None,
                Some((rest, end)) => Some((seq![s.subrange(from, i) + texts[0]] + rest, end)),
            },
        }
    }
}

/// Restoring `a + b` is restoring `a`, then `b` from where `a` left the cursor.
pub proof fn lemma_restore_split(s: Seq<char>, a: Seq<Seq<char>>, b: Seq<Seq<char>>, from: int)
    ensures
        restore_spec(s, a + b, from) == match restore_spec(s, a, from) {
            None => None,
            Some((x, e)) => match restore_spec(s, b, e) {
                None => None,
                Some((y, e2)) => Some((x + y, e2)),
            },
        },
    decreases a.len(),
{
    if a.len() == 0 {
        assert(a + b =~= b);
        match restore_spec(s, b, from) {
            None => {},
            Some((y, e2)) => {
                assert(Seq::<Seq<char>>::empty() + y =~= y);
            },
        }
    } else {
        assert((a + b).drop_first() =~= a.drop_first() + b);
        assert((a + b)[0] == a[0]);
        match find_from(s, a[0], from) {
            None => {},
            Some(i) => {
                lemma_restore_split(s, a.drop_first(), b, i + a[0].len());
                match restore_spec(s, a.drop_first(), i + a[0].len()) {
                    None => {},
                    Some((x, e)) => {
                        match restore_spec(s, b, e) {
                            None => {},
                            Some((y, e2)) => {
                                let h = seq![s.subrange(from, i) + a[0]];
                                assert(h + (x + y) =~= (h + x) + y);
                            },
                        }
                    },
                }
            },
        }
    }
}

/// The texts occur in `s` one after another, without overlap, all at or
/// after index `from`.
pub open spec fn in_order(s: Seq<char>, texts: Seq<Seq<char>>, from: int) -> bool
    decreases texts.len(),
{
    texts.len() == 0 || exists|i: int|
        from <= i && #[trigger] occurs_at(s, texts[0], i) && in_order(
            s,
            texts.drop_first(),
            i + texts[0].len(),
        )
}

proof fn lemma_in_order_weaken(s: Seq<char>, texts: Seq<Seq<char>>, a: int, b: int)
    requires
        a <= b,
        in_order(s, texts, b),
    ensures
        in_order(s, texts, a),
{
    if texts.len() > 0 {
        let i = choose|i: int|
            b <= i && #[trigger] occurs_at(s, texts[0], i) && in_order(
                s,
                texts.drop_first(),
                i + texts[0].len(),
            );
        assert(a <= i && occurs_at(s, texts[0], i));
    }
}

proof fn lemma_find_from_complete(s: Seq<char>, t: Seq<char>, from: int, j: int)
    requires
        0 <= from <= j,
        occurs_at(s, t, j),
    ensures
        find_from(s, t, from) matches Some(i) && i <= j,
    decreases j - from,
{
    if !occurs_at(s, t, from) {
        lemma_find_from_complete(s, t, from + 1, j);
    }
}

proof fn lemma_restore_bounds(s: Seq<char>, texts: Seq<Seq<char>>, from: int)
    requires
        0 <= from <= s.len(),
        restore_spec(s, texts, from) is Some,
    ensures
        ({
            let (out, end) = restore_spec(s, texts, from)->Some_0;
            &&& from <= end <= s.len()
            &&& concat(out) == s.subrange(from, end)
            &&& in_order(s, texts, from)
        }),
    decreases texts.len(),
{
    if texts.len() > 0 {
        let i = find_from(s, texts[0], from)->Some_0;
        lemma_find_from(s, texts[0], from);
        let e = i + texts[0].len();
        lemma_restore_bounds(s, texts.drop_first(), e);
        let (rest, end) = restore_spec(s, texts.drop_first(), e)->Some_0;
        let out = seq![s.subrange(from, i) + texts[0]] + rest;
        assert(out.drop_first() =~= rest);
        assert(concat(out) == out[0] + concat(rest));
        assert(s.subrange(from, end) =~= s.subrange(from, i) + s.subrange(i, e) + s.subrange(e, end));
        assert(occurs_at(s, texts[0], i));
    } else {
        assert(s.subrange(from, from) =~= Seq::<char>::empty());
    }
}

/// Restoration succeeds exactly when the texts occur in the source one after
/// another, in order and without overlap: a text that cannot be matched in
/// order is always a failure, never dropped.
pub proof fn lemma_restore_succeeds_iff_in_order(s: Seq<char>, texts: Seq<Seq<char>>)
    ensures
        restore_spec(s, texts, 0) is Some <==> in_order(s, texts, 0),
{
    if restore_spec(s, texts, 0) is Some {
        lemma_restore_bounds(s, texts, 0);
    }
    if in_order(s, texts, 0) {
        lemma_in_order_restores(s, texts, 0);
    }
}

proof fn lemma_in_order_restores(s: Seq<char>, texts: Seq<Seq<char>>, from: int)
    requires
        0 <= from,
        in_order(s, texts, from),
    ensures
        restore_spec(s, texts, from) is Some,
    decreases texts.len(),
{
    if texts.len() > 0 {
        let j = choose|j: int|
            from <= j && #[trigger] occurs_at(s, texts[0], j) && in_order(
                s,
                texts.drop_first(),
                j + texts[0].len(),
            );
        lemma_find_from_complete(s, texts[0], from, j);
        let i = find_from(s, texts[0], from)->Some_0;
        lemma_find_from(s, texts[0], from);
        lemma_in_order_weaken(s, texts.drop_first(), i + texts[0].len(), j + texts[0].len());
        lemma_in_order_restores(s, texts.drop_first(), i + texts[0].len());
    }
}

/// When restoration succeeds, the restored texts joined end to end, followed
/// by the source text left after the last match, give back the source text.
pub proof fn lemma_round_trip(s: Seq<char>, texts: Seq<Seq<char>>)
    requires
        restore_spec(s, texts, 0) is Some,
    ensures
        ({
            let (out, end) = restore_spec(s, texts, 0)->Some_0;
            &&& 0 <= end <= s.len()
            &&& concat(out) + s.subrange(end, s.len() as int) == s
        }),
{
    lemma_restore_bounds(s, texts, 0);
    let (out, end) = restore_spec(s, texts, 0)->Some_0;
    assert(s.subrange(0, end) + s.subrange(end, s.len() as int) =~= s);
}

/// A fragment whose text could not be found, in order, in the source text.
pub struct RestoreError {
    /// Position of the fragment in the list.
    pub index: usize,
    pub class: Class,
    pub text: String,
    /// Character index in the source where the search began.
    pub position: usize,
}

impl RestoreError {
    /// A description of the failure.
    pub fn message(&self) -> (r: String) {
        let mut m = String::from_str("fragment not found in the source text: ");
        m.append(self.text.as_str());
        m
    }
}

/// The characters of `s`, in order.
pub fn chars_of(s: &str) -> (r: Vec<char>)
    ensures
        r@ == s@,
{
    let n = s.unicode_len();
    let mut r: Vec<char> = Vec::new();
    let mut i: usize = 0;
    while i < n
        invariant
            n == s@.len(),
            i <= n,
            r@ == s@.take(i as int),
        decreases n - i,
    {
        r.push(s.get_char(i));
        i += 1;
        assert(r@ =~= s@.take(i as int));
    }
    assert(r@ =~= s@);
    r
}

/// Whether `t` occurs in `s` at index `i`.
fn matches_at(s: &Vec<char>, t: &Vec<char>, i: usize) -> (r: bool)
    requires
        i + t@.len() <= s@.len(),
    ensures
        r == occurs_at(s@, t@, i as int),
{
    let sl = s.len();
    let mut j: usize = 0;
    while j < t.len()
        invariant
            sl == s@.len(),
            i + t@.len() <= s@.len(),
            j <= t@.len(),
            forall|k: int| 0 <= k < j ==> s@[i + k] == t@[k],
        decreases t@.len() - j,
    {
        if s[i + j] != t[j] {
            assert(s@.subrange(i as int, i + t@.len())[j as int] != t@[j as int]);
            return false;
        }
        j += 1;
    }
    assert(s@.subrange(i as int, i + t@.len()) =~= t@);
    true
}

/// The first index at or after `from` where `t` occurs in `s`.
pub fn find_at_or_after(s: &Vec<char>, t: &Vec<char>, from: usize) -> (r: Option<usize>)
    ensures
        match r {
            Some(i) => find_from(s@, t@, from as int) == Some(i as int),
            None => find_from(s@, t@, from as int) is None,
        },
{
    let n = t.len();
    let h = s.len();
    if n > h {
        return None;
    }
    let mut i: usize = from;
    while i <= h - n
        invariant
            n == t@.len(),
            h == s@.len(),
            n <= h,
            from <= i,
            find_from(s@, t@, from as int) == find_from(s@, t@, i as int),
        decreases h - i,
    {
        if matches_at(s, t, i) {
            return Some(i);
        }
        if i == h - n {
            assert(find_from(s@, t@, i + 1) is None);
            return None;
        }
        i += 1;
    }
    None
}

/// Puts back in front of each fragment the source text that separated it from
/// the previous one: the first occurrence of each fragment's text is searched
/// in what remains of `source` after the previous match. Fails on the first
/// fragment whose text cannot be found there. Text after the last match is not
/// attached to any fragment.
pub fn restore_whitespace(source: &str, tokens: &Vec<SpanToken>) -> (r: Result<
    Vec<SpanToken>,
    RestoreError,
>)
    ensures
        match restore_spec(source@, texts_of(frags_of(tokens@)), 0) {
            Some((out, _)) => r is Ok && texts_of(frags_of(r->Ok_0@)) == out && classes_of(
                frags_of(r->Ok_0@),
            ) == classes_of(frags_of(tokens@)),
            None => r is Err,
        },
        r is Err ==> ({
            let e = r->Err_0;
            let texts = texts_of(frags_of(tokens@));
            &&& e.index < tokens@.len()
            &&& tokens@[e.index as int]@ == (e.class, e.text@)
            &&& restore_spec(source@, texts.take(e.index as int), 0) == Some(
                (restore_spec(source@, texts.take(e.index as int), 0)->Some_0.0, e.position as int),
            )
            &&& find_from(source@, e.text@, e.position as int) is None
        }),
{
    let ghost s = source@;
    let ghost texts = texts_of(frags_of(tokens@));
    let hay = chars_of(source);
    let hl = hay.len();
    let mut out: Vec<SpanToken> = Vec::new();
    let mut pos: usize = 0;
    let mut k: usize = 0;
    proof {
        assert(texts.take(0) =~= Seq::<Seq<char>>::empty());
        assert(texts_of(frags_of(out@)) =~= Seq::<Seq<char>>::empty());
    }
    while k < tokens.len()
        invariant
            s == source@,
            hay@ == s,
            hl == s.len(),
            texts == texts_of(frags_of(tokens@)),
            k <= tokens@.len(),
            pos <= s.len(),
            restore_spec(s, texts.take(k as int), 0) == Some(
                (texts_of(frags_of(out@)), pos as int),
            ),
            classes_of(frags_of(out@)) == classes_of(frags_of(tokens@)).take(k as int),
        decreases tokens@.len() - k,
    {
        let tok = &tokens[k];
        let needle = chars_of(tok.text.as_str());
        let ghost t = texts[k as int];
        assert(t == tok.text@);
        let ghost one_t = seq![t];
        assert(texts.take(k + 1) =~= texts.take(k as int) + one_t);
        proof {
            lemma_restore_split(s, texts.take(k as int), one_t, 0);
            assert(one_t.drop_first() =~= Seq::<Seq<char>>::empty());
        }
        match find_at_or_after(&hay, &needle, pos) {
            None => {
                proof {
                    assert(texts =~= texts.take(k + 1) + texts.skip(k + 1));
                    lemma_restore_split(s, texts.take(k + 1), texts.skip(k + 1), 0);
                }
                return Err(
                    RestoreError {
                        index: k,
                        class: tok.class,
                        text: tok.text.clone(),
                        position: pos,
                    },
                );
            },
            Some(i) => {
                proof {
                    lemma_find_from(s, t, pos as int);
                }
                let filler = source.substring_char(pos, i);
                let mut text = String::from_str(filler);
                text.append(tok.text.as_str());
                let ghost old_out = out@;
                let ghost piece = s.subrange(pos as int, i as int) + t;
                assert(text@ == piece);
                assert(classes_of(frags_of(tokens@))[k as int] == tok.class);
                out.push(SpanToken::new(tok.class, text));
                proof {
                    assert(frags_of(out@) =~= frags_of(old_out).push((tok.class, piece)));
                    assert(texts_of(frags_of(out@)) =~= texts_of(frags_of(old_out)) + seq![piece]);
                    assert(classes_of(frags_of(out@)) =~= classes_of(frags_of(old_out)).push(
                        tok.class,
                    ));
                    assert(classes_of(frags_of(out@)) =~= classes_of(frags_of(tokens@)).take(
                        k + 1,
                    ));
                    let e = i + t.len();
                    assert(restore_spec(s, one_t.drop_first(), e) == Some(
                        (Seq::<Seq<char>>::empty(), e),
                    ));
                    assert(seq![piece] + Seq::<Seq<char>>::empty() =~= seq![piece]);
                    assert(restore_spec(s, one_t, pos as int) == Some((seq![piece], e)));
                }
                pos = i + needle.len();
                k += 1;
            },
        }
    }
    proof {
        assert(texts.take(k as int) =~= texts);
        assert(classes_of(frags_of(tokens@)).take(k as int) =~= classes_of(frags_of(tokens@)));
    }
    Ok(out)
}

} // verus!
