use unicode_segmentation::UnicodeSegmentation;
use vstd::prelude::*;

verus! {

/// The extended grapheme clusters of a text, in order.
pub uninterp spec fn graphemes_of(s: Seq<char>) -> Seq<Seq<char>>;

/// The text that a sequence of pieces spells when written one after another.
pub open spec fn flatten(gs: Seq<Seq<char>>) -> Seq<char>
    decreases gs.len(),
{
    if gs.len() == 0 {
        Seq::<char>::empty()
    } else {
        flatten(gs.drop_last()) + gs.last()
    }
}

/// The views of a vector of strings.
pub open spec fn views(v: Seq<String>) -> Seq<Seq<char>> {
    v.map_values(|s: String| s@)
}

/// The view of an optional string.
pub open spec fn opt_seq(v: Option<String>) -> Option<Seq<char>> {
    match v {
        Some(s) => Some(s@),
        None => None,
    }
}

/// The ellipsis that marks a shortened text.
pub open spec fn ellipsis() -> Seq<char> {
    seq!['\u{2026}']
}

/// The grapheme clusters that remain of a text shortened to `len` clusters:
/// all of them when they fit, none for a width of zero, and otherwise the
/// first `len` followed by an ellipsis.
pub open spec fn truncated_segments(gs: Seq<Seq<char>>, len: nat) -> Seq<Seq<char>> {
    if gs.len() <= len {
        gs
    } else if len == 0 {
        Seq::<Seq<char>>::empty()
    } else {
        gs.take(len as int).push(ellipsis())
    }
}

/// `a` comes before `b` or equals it, comparing characters one by one.
pub open spec fn seq_le(a: Seq<char>, b: Seq<char>) -> bool
    decreases a.len(),
{
    if a.len() == 0 {
        true
    } else if b.len() == 0 {
        false
    } else if a[0] != b[0] {
        a[0] < b[0]
    } else {
        seq_le(a.drop_first(), b.drop_first())
    }
}

/// `a` comes strictly before `b`.
pub open spec fn seq_lt(a: Seq<char>, b: Seq<char>) -> bool {
    seq_le(a, b) && a != b
}

/// Relies on `UnicodeSegmentation::graphemes` (extended clusters): the clusters
/// depend on the text alone, none is empty, and written one after another they
/// give the text back.
#[verifier::external_body]
fn graphemes(text: &str) -> (r: Vec<String>)
    ensures
        views(r@) == graphemes_of(text@),
        flatten(views(r@)) == text@,
        forall|i: int| 0 <= i < r@.len() ==> (#[trigger] r@[i])@.len() > 0,
{
    text.graphemes(true).map(|g| g.to_string()).collect()
}

/// The characters of a text in upper case.
pub uninterp spec fn upper_of(s: Seq<char>) -> Seq<char>;

/// Relies on `str::to_uppercase`: the result depends on the characters alone.
#[verifier::external_body]
pub(crate) fn to_upper(s: &str) -> (r: String)
    ensures
        r@ == upper_of(s@),
{
    s.to_uppercase()
}

/// Writing one more piece appends it to the text.
pub proof fn lemma_flatten_push(gs: Seq<Seq<char>>, g: Seq<char>)
    ensures
        flatten(gs.push(g)) == flatten(gs) + g,
{
    assert(gs.push(g).drop_last() =~= gs);
}

proof fn lemma_flatten_nonempty(gs: Seq<Seq<char>>)
    requires
        gs.len() > 0,
        gs.last().len() > 0,
    ensures
        flatten(gs).len() > 0,
{
}

/// Writes the given pieces one after another, shortened to `len` of them
/// with an ellipsis when there are more.
pub fn truncate_graphemes(gs: &Vec<String>, len: usize) -> (r: String)
    ensures
        r@ == flatten(truncated_segments(views(gs@), len as nat)),
{
    let ghost vs = views(gs@);
    let n: usize = if gs.len() <= len { gs.len() } else { len };
    let mut out = String::new();
    let mut i: usize = 0;
    while i < n
        invariant
            n <= gs.len(),
            vs == views(gs@),
            i <= n,
            out@ == flatten(vs.take(i as int)),
        decreases n - i,
    {
        proof {
            lemma_flatten_push(vs.take(i as int), vs[i as int]);
            assert(vs.take(i as int).push(vs[i as int]) =~= vs.take(i + 1));
        }
        out.append(gs[i].as_str());
        i = i + 1;
    }
    if gs.len() > len && len > 0 {
        proof {
            lemma_flatten_push(vs.take(len as int), ellipsis());
        }
        out.append("\u{2026}");
        proof {
            reveal_strlit("\u{2026}");
        }
    } else if gs.len() <= len {
        assert(vs.take(i as int) =~= vs);
    } else {
        assert(vs.take(0) =~= Seq::<Seq<char>>::empty());
    }
    out
}

/// Shortens a text to `len` grapheme clusters, marking the cut with an ellipsis.
/// A text that fits comes back unchanged, and a width of zero leaves nothing.
pub fn truncate_ellipse(text: &str, len: usize) -> (r: String)
    ensures
        r@ == flatten(truncated_segments(graphemes_of(text@), len as nat)),
        graphemes_of(text@).len() <= len ==> r@ == text@,
        len == 0 ==> r@.len() == 0,
        text@.len() == 0 ==> r@.len() == 0 && graphemes_of(text@).len() == 0,
{
    let gs = graphemes(text);
    proof {
        if gs@.len() > 0 {
            lemma_flatten_nonempty(views(gs@));
        }
    }
    let r = truncate_graphemes(&gs, len);
    proof {
        if len == 0 && gs@.len() > 0 {
            assert(views(gs@).take(0) =~= Seq::<Seq<char>>::empty());
        }
        if len == 0 && gs@.len() == 0 {
            assert(text@ == flatten(views(gs@)));
        }
    }
    r
}

/// The pieces kept of a text shortened to `len > 0` clusters, when it had
/// more: its first `len` clusters as they were and then the ellipsis, `len + 1`
/// pieces in all. A text that fits is kept whole, and a width of zero keeps
/// nothing.
pub proof fn lemma_truncated_length(gs: Seq<Seq<char>>, len: nat)
    ensures
        gs.len() > len && len > 0 ==> truncated_segments(gs, len).len() == len + 1
            && truncated_segments(gs, len).take(len as int) == gs.take(len as int),
        gs.len() <= len ==> truncated_segments(gs, len) == gs,
        len == 0 ==> truncated_segments(gs, len).len() == 0 || gs.len() == 0,
{
    if gs.len() > len && len > 0 {
        assert(truncated_segments(gs, len).take(len as int) =~= gs.take(len as int));
    }
}

/// Compares two texts character by character: true when `a` comes before `b`.
pub fn text_less(a: &str, b: &str) -> (r: bool)
    ensures
        r == seq_lt(a@, b@),
{
    let la = a.unicode_len();
    let lb = b.unicode_len();
    let mut i: usize = 0;
    assert(a@.skip(0) =~= a@);
    assert(b@.skip(0) =~= b@);
    while i < la && i < lb
        invariant
            la == a@.len(),
            lb == b@.len(),
            i <= la,
            i <= lb,
            a@.take(i as int) == b@.take(i as int),
            seq_le(a@, b@) == seq_le(a@.skip(i as int), b@.skip(i as int)),
        decreases la - i,
    {
        let ca = a.get_char(i);
        let cb = b.get_char(i);
        if ca != cb {
            proof {
                assert(a@.skip(i as int)[0] == ca);
                assert(b@.skip(i as int)[0] == cb);
                if a@ == b@ {
                    assert(a@[i as int] == b@[i as int]);
                }
            }
            return ca < cb;
        }
        proof {
            assert(a@.skip(i as int).drop_first() =~= a@.skip(i + 1));
            assert(b@.skip(i as int).drop_first() =~= b@.skip(i + 1));
            assert(a@.take(i + 1) =~= a@.take(i as int).push(ca));
            assert(b@.take(i + 1) =~= b@.take(i as int).push(cb));
        }
        i = i + 1;
    }
    proof {
        if i == la {
            assert(a@.take(i as int) =~= a@);
        }
        if i == lb {
            assert(b@.take(i as int) =~= b@);
        }
        if a@ == b@ {
            assert(la == lb);
        }
    }
    i == la && i < lb
}

/// Lexicographic order on texts is total.
pub proof fn lemma_seq_le_total(a: Seq<char>, b: Seq<char>)
    ensures
        seq_le(a, b) || seq_le(b, a),
    decreases a.len(),
{
    if a.len() > 0 && b.len() > 0 && a[0] == b[0] {
        lemma_seq_le_total(a.drop_first(), b.drop_first());
    }
}

/// Lexicographic order on texts is antisymmetric.
pub proof fn lemma_seq_le_antisymmetric(a: Seq<char>, b: Seq<char>)
    requires
        seq_le(a, b),
        seq_le(b, a),
    ensures
        a == b,
    decreases a.len(),
{
    if a.len() > 0 && b.len() > 0 {
        if a[0] == b[0] {
            lemma_seq_le_antisymmetric(a.drop_first(), b.drop_first());
            assert(a =~= seq![a[0]] + a.drop_first());
            assert(b =~= seq![b[0]] + b.drop_first());
        }
    } else {
        assert(a.len() == 0 && b.len() == 0);
        assert(a =~= b);
    }
}

/// Lexicographic order on texts is transitive.
pub proof fn lemma_seq_le_transitive(a: Seq<char>, b: Seq<char>, c: Seq<char>)
    requires
        seq_le(a, b),
        seq_le(b, c),
    ensures
        seq_le(a, c),
    decreases a.len(),
{
    if a.len() > 0 && b.len() > 0 && c.len() > 0 && a[0] == b[0] && b[0] == c[0] {
        lemma_seq_le_transitive(a.drop_first(), b.drop_first(), c.drop_first());
    }
}

/// Appends the items of a list, with a separator between two neighbours.
pub open spec fn joined(items: Seq<Seq<char>>, sep: Seq<char>) -> Seq<char>
    decreases items.len(),
{
    if items.len() == 0 {
        Seq::<char>::empty()
    } else if items.len() == 1 {
        items[0]
    } else {
        joined(items.drop_last(), sep) + sep + items.last()
    }
}

/// Joins strings with a separator between two neighbours.
pub fn join(items: &Vec<String>, sep: &str) -> (r: String)
    ensures
        r@ == joined(views(items@), sep@),
{
    let ghost vs = views(items@);
    let mut out = String::new();
    let mut i: usize = 0;
    while i < items.len()
        invariant
            vs == views(items@),
            i <= items.len(),
            out@ == joined(vs.take(i as int), sep@),
        decreases items.len() - i,
    {
        proof {
            let t = vs.take(i + 1);
            assert(t.drop_last() =~= vs.take(i as int));
            assert(t.last() == vs[i as int]);
            if i == 0 {
                assert(vs.take(0) =~= Seq::<Seq<char>>::empty());
            }
        }
        if i > 0 {
            out.append(sep);
        }
        out.append(items[i].as_str());
        i = i + 1;
    }
    assert(vs.take(i as int) =~= vs);
    out
}

} // verus!
