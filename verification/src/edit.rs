//! Replacing text that was typed into a field: what to erase and what to type.
use crate::text;
use unicode_segmentation::UnicodeSegmentation;
use vstd::prelude::*;

verus! {

/// The grapheme clusters of a text, as `UnicodeSegmentation::graphemes` finds
/// them.
pub uninterp spec fn grapheme_clusters(s: Seq<char>) -> Seq<Seq<char>>;

/// Calls `UnicodeSegmentation::graphemes` for the extended grapheme clusters of a
/// text. They are a function of the text alone; none is empty, and one after the
/// other they are the text.
#[verifier::external_body]
pub(crate) fn graphemes(s: &str) -> (r: Vec<String>)
    ensures
        text::texts(r@) == grapheme_clusters(s@),
        text::texts(r@).flatten() == s@,
        forall|i: int| 0 <= i < r@.len() ==> (#[trigger] r@[i])@.len() > 0,
{
    s.graphemes(true).map(|g| g.to_string()).collect()
}

/// The number of grapheme clusters of `s`.
pub fn grapheme_len(s: &str) -> (n: usize)
    ensures
        n == grapheme_clusters(s@).len(),
{
    let v = graphemes(s);
    assert(text::texts(v@).len() == v@.len());
    v.len()
}

/// The number of leading items that `a` and `b` share.
pub open spec fn shared(a: Seq<Seq<char>>, b: Seq<Seq<char>>) -> nat
    decreases a.len(),
{
    if a.len() > 0 && b.len() > 0 && a[0] == b[0] {
        1 + shared(a.drop_first(), b.drop_first())
    } else {
        0
    }
}

/// [`shared`] counts the items up to the first difference.
pub proof fn shared_is_the_longest_common_start(a: Seq<Seq<char>>, b: Seq<Seq<char>>)
    ensures
        shared(a, b) <= a.len(),
        shared(a, b) <= b.len(),
        a.take(shared(a, b) as int) == b.take(shared(a, b) as int),
        shared(a, b) < a.len() && shared(a, b) < b.len() ==> a[shared(a, b) as int]
            != b[shared(a, b) as int],
    decreases a.len(),
{
    if a.len() > 0 && b.len() > 0 && a[0] == b[0] {
        let (x, y) = (a.drop_first(), b.drop_first());
        shared_is_the_longest_common_start(x, y);
        let n = shared(x, y) as int;
        assert(a.take(n + 1) == seq![a[0]] + x.take(n));
        assert(b.take(n + 1) == seq![b[0]] + y.take(n));
    } else {
        assert(a.take(0) == b.take(0));
    }
}

/// A change to the text in front of the cursor: erase `delete` characters as the
/// user counts them (grapheme clusters), then type `text`. `target` is the text
/// that then stands there. Once it stands there, and `settle` is set, it counts
/// as final and is not changed any more.
#[derive(Debug, Clone, PartialEq, Eq)]
#[verifier::ext_equal]
pub struct Edit<T = String> {
    pub delete: usize,
    pub text: T,
    pub target: T,
    pub settle: bool,
}

impl View for Edit {
    type V = Edit<Seq<char>>;

    open spec fn view(&self) -> Edit<Seq<char>> {
        Edit {
            delete: self.delete,
            text: self.text@,
            target: self.target@,
            settle: self.settle,
        }
    }
}

/// The edit that turns `old` into `new` and keeps the grapheme clusters that both
/// begin with; nothing where they are the same text.
pub open spec fn edit_between(old: Seq<char>, new: Seq<char>, settle: bool) -> Option<
    Edit<Seq<char>>,
> {
    if old == new {
        None
    } else {
        let a = grapheme_clusters(old);
        let b = grapheme_clusters(new);
        Some(
            Edit {
                delete: (a.len() - shared(a, b)) as usize,
                text: b.skip(shared(a, b) as int).flatten(),
                target: new,
                settle,
            },
        )
    }
}

/// `old` without its last `n` grapheme clusters.
pub open spec fn erased(old: Seq<char>, n: int) -> Seq<char> {
    let a = grapheme_clusters(old);
    a.take(a.len() - n).flatten()
}

/// The text in the field where `old` stood, once an edit, if any, was made.
pub open spec fn field_after(old: Seq<char>, e: Option<Edit<Seq<char>>>) -> Seq<char> {
    match e {
        Some(e) => erased(old, e.delete as int) + e.text,
        None => old,
    }
}

/// What an optional edit denotes.
pub open spec fn opt_edit(e: Option<Edit>) -> Option<Edit<Seq<char>>> {
    match e {
        Some(e) => Some(e@),
        None => None,
    }
}

/// The edit that turns the typed text `old` into `new`, retyping only what
/// changes. Erasing and typing as it says turns `old` into `new`.
pub fn retype(old: &str, new: &str, settle: bool) -> (r: Option<Edit>)
    ensures
        match r {
            Some(e) => edit_between(old@, new@, settle) == Some(e@),
            None => edit_between(old@, new@, settle) is None,
        },
        r matches Some(e) ==> e.delete <= grapheme_clusters(old@).len(),
        r matches Some(e) ==> erased(old@, e.delete as int) + e.text@ == new@,
        field_after(old@, opt_edit(r)) == new@,
{
    if text::same(old, new) {
        return None;
    }
    let a = graphemes(old);
    let b = graphemes(new);
    let n = shared_len(&a, &b);
    let typed = concat_from(&b, n);
    proof {
        let x = grapheme_clusters(old@);
        let y = grapheme_clusters(new@);
        assert(x.len() == a@.len() && y.len() == b@.len());
        shared_is_the_longest_common_start(x, y);
        assert(y == y.take(n as int) + y.skip(n as int));
        vstd::seq_lib::lemma_flatten_concat(y.take(n as int), y.skip(n as int));
        assert(x.len() - (x.len() - n) == n);
    }
    Some(Edit { delete: a.len() - n, text: typed, target: new.to_string(), settle })
}

/// The number of leading items that `a` and `b` share.
fn shared_len(a: &Vec<String>, b: &Vec<String>) -> (n: usize)
    ensures
        n == shared(text::texts(a@), text::texts(b@)),
        n <= a.len(),
        n <= b.len(),
{
    let ghost x = text::texts(a@);
    let ghost y = text::texts(b@);
    let mut n: usize = 0;
    assert(x.skip(0) == x && y.skip(0) == y);
    while n < a.len() && n < b.len() && a[n] == b[n]
        invariant
            n <= a.len(),
            n <= b.len(),
            x == text::texts(a@),
            y == text::texts(b@),
            shared(x, y) == n + shared(x.skip(n as int), y.skip(n as int)),
        decreases a.len() - n,
    {
        assert(x.skip(n as int).drop_first() == x.skip(n + 1));
        assert(y.skip(n as int).drop_first() == y.skip(n + 1));
        n = n + 1;
    }
    n
}

/// The items of `v` from `from` on, one after the other.
fn concat_from(v: &Vec<String>, from: usize) -> (r: String)
    requires
        from <= v.len(),
    ensures
        r@ == text::texts(v@).skip(from as int).flatten(),
{
    let ghost x = text::texts(v@);
    let mut r = String::new();
    let mut i: usize = from;
    assert(x.subrange(from as int, from as int) == Seq::<Seq<char>>::empty());
    while i < v.len()
        invariant
            from <= i <= v.len(),
            x == text::texts(v@),
            r@ == x.subrange(from as int, i as int).flatten(),
        decreases v.len() - i,
    {
        r.append(v[i].as_str());
        i = i + 1;
        proof {
            let y = x.subrange(from as int, i - 1);
            assert(x.subrange(from as int, i as int) == y.push(v@[i - 1]@));
            y.lemma_flatten_push(v@[i - 1]@);
        }
    }
    assert(x.subrange(from as int, v@.len() as int) == x.skip(from as int));
    r
}

/// There is an edit where the text changes, and only there. It leads to the new text,
/// and is final where that is asked for.
pub proof fn edits_lead_to_the_new_text(old: Seq<char>, new: Seq<char>, settle: bool)
    ensures
        edit_between(old, new, settle) is None <==> old == new,
        edit_between(old, new, settle) matches Some(e) ==> e.target == new && e.settle == settle,
{
}

/// Erasing and typing as an edit says turns the old text into the new one, whatever
/// both begin with; and what both begin with is not typed again.
pub proof fn edits_turn_the_old_text_into_the_new(old: Seq<char>, new: Seq<char>, settle: bool)
    requires
        grapheme_clusters(old).flatten() == old,
        grapheme_clusters(new).flatten() == new,
        grapheme_clusters(old).len() <= usize::MAX,
    ensures
        field_after(old, edit_between(old, new, settle)) == new,
        edit_between(old, new, settle) matches Some(e) ==> {
            let (a, b) = (grapheme_clusters(old), grapheme_clusters(new));
            let kept = a.len() - e.delete;
            &&& 0 <= kept <= b.len()
            &&& a.take(kept) == b.take(kept)
            &&& e.text == b.skip(kept).flatten()
            &&& kept < a.len() && kept < b.len() ==> a[kept] != b[kept]
        },
{
    let (a, b) = (grapheme_clusters(old), grapheme_clusters(new));
    let n = shared(a, b) as int;
    shared_is_the_longest_common_start(a, b);
    assert(b == b.take(n) + b.skip(n));
    vstd::seq_lib::lemma_flatten_concat(b.take(n), b.skip(n));
}

}
