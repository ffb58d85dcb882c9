//! The table of templates that `init` prints when no template is named:
//! the templates ordered by language and then by name, in padded columns.
use crate::init::{template_views, TemplateEntry, TemplateView};
use crate::text::{owned, push_char, push_str};
use vstd::prelude::*;

verus! {

/// `a <= b` in the order of `str`: character by character, by code point,
/// a prefix before the longer text.
pub open spec fn text_le(a: Seq<char>, b: Seq<char>) -> bool
    decreases a.len(),
{
    if a.len() == 0 {
        true
    } else if b.len() == 0 {
        false
    } else if a[0] < b[0] {
        true
    } else if a[0] > b[0] {
        false
    } else {
        text_le(a.drop_first(), b.drop_first())
    }
}

/// Whether `a` comes after `b`: by language, then by name.
pub open spec fn after(a: TemplateView, b: TemplateView) -> bool {
    !text_le(a.language, b.language) || (a.language == b.language && !text_le(a.name, b.name))
}

/// `x` inserted into `s` after every element that it does not come
/// after... from the end: before the trailing elements that come after it.
pub open spec fn insert_in_order(s: Seq<TemplateView>, x: TemplateView) -> Seq<TemplateView>
    decreases s.len(),
{
    if s.len() == 0 {
        seq![x]
    } else if after(s.last(), x) {
        insert_in_order(s.drop_last(), x).push(s.last())
    } else {
        s.push(x)
    }
}

/// The templates in order of language and then name; templates equal in
/// both keep their relative order.
pub open spec fn ordered(ts: Seq<TemplateView>) -> Seq<TemplateView>
    decreases ts.len(),
{
    if ts.len() == 0 {
        Seq::empty()
    } else {
        insert_in_order(ordered(ts.drop_last()), ts.last())
    }
}

/// `s` padded with spaces to `width` characters.
pub open spec fn padded(s: Seq<char>, width: nat) -> Seq<char> {
    if s.len() >= width {
        s
    } else {
        s + Seq::new((width - s.len()) as nat, |i: int| ' ')
    }
}

/// One row of the table.
pub open spec fn row(language: Seq<char>, name: Seq<char>, description: Seq<char>) -> Seq<char> {
    padded(language, 12) + " "@ + padded(name, 20) + " "@ + description
}

/// The lines of the table: a heading, then one row per template in order.
pub open spec fn table(ts: Seq<TemplateView>) -> Seq<Seq<char>> {
    seq![row("Language"@, "Name"@, "Description"@)] + ordered(ts).map_values(
        |t: TemplateView| row(t.language, t.name, t.description),
    )
}

fn text_le_exec(a: &str, b: &str) -> (r: bool)
    ensures
        r == text_le(a@, b@),
{
    let av = crate::text::chars_of(a);
    let bv = crate::text::chars_of(b);
    let mut i: usize = 0;
    assert(a@.skip(0) =~= a@);
    assert(b@.skip(0) =~= b@);
    while i < av.len() && i < bv.len() && av[i] == bv[i]
        invariant
            i <= av@.len(),
            i <= bv@.len(),
            av@ == a@,
            bv@ == b@,
            text_le(a@, b@) == text_le(a@.skip(i as int), b@.skip(i as int)),
        decreases av@.len() - i,
    {
        assert(a@.skip(i as int).drop_first() =~= a@.skip(i + 1));
        assert(b@.skip(i as int).drop_first() =~= b@.skip(i + 1));
        i = i + 1;
    }
    if i == av.len() {
        assert(a@.skip(i as int).len() == 0);
        assert(text_le(a@.skip(i as int), b@.skip(i as int)));
        true
    } else if i == bv.len() {
        assert(b@.skip(i as int).len() == 0);
        assert(!text_le(a@.skip(i as int), b@.skip(i as int)));
        false
    } else {
        assert(a@.skip(i as int)[0] == a@[i as int]);
        assert(b@.skip(i as int)[0] == b@[i as int]);
        av[i] < bv[i]
    }
}

fn comes_after(a: &TemplateEntry, b: &TemplateEntry) -> (r: bool)
    ensures
        r == after(a@, b@),
{
    if !text_le_exec(a.language.as_str(), b.language.as_str()) {
        return true;
    }
    let same = crate::text::str_eq(a.language.as_str(), b.language.as_str());
    same && !text_le_exec(a.name.as_str(), b.name.as_str())
}

fn copy_entry(t: &TemplateEntry) -> (r: TemplateEntry)
    ensures
        r@ == t@,
{
    TemplateEntry { name: t.name.clone(), language: t.language.clone(), description: t.description.clone() }
}

/// Inserts `x` into `v` where `insert_in_order` puts it.
fn insert_entry(v: &mut Vec<TemplateEntry>, x: TemplateEntry)
    ensures
        template_views(final(v)@) == insert_in_order(template_views(old(v)@), x@),
{
    let ghost s0 = template_views(v@);
    let mut pos: usize = v.len();
    assert(s0.take(pos as int) =~= s0);
    assert(insert_in_order(s0, x@) + s0.skip(pos as int) =~= insert_in_order(s0, x@));
    while pos > 0 && comes_after(&v[pos - 1], &x)
        invariant
            pos <= v@.len(),
            s0 == template_views(v@),
            insert_in_order(s0, x@) == insert_in_order(s0.take(pos as int), x@) + s0.skip(pos as int),
        decreases pos,
    {
        proof {
            let t = s0.take(pos as int);
            assert(t.last() == v@[pos - 1]@);
            assert(t.drop_last() =~= s0.take(pos - 1));
            assert(s0.skip(pos - 1) =~= seq![t.last()] + s0.skip(pos as int));
            assert(insert_in_order(t, x@) == insert_in_order(s0.take(pos - 1), x@).push(t.last()));
            assert(insert_in_order(s0.take(pos - 1), x@).push(t.last()) + s0.skip(pos as int)
                =~= insert_in_order(s0.take(pos - 1), x@) + s0.skip(pos - 1));
        }
        pos = pos - 1;
    }
    proof {
        let t = s0.take(pos as int);
        if pos > 0 {
            assert(t.last() == v@[pos - 1]@);
            assert(!after(t.last(), x@));
            assert(insert_in_order(t, x@) == t.push(x@));
        } else {
            assert(insert_in_order(t, x@) == seq![x@]);
        }
    }
    let ghost xv = x@;
    v.insert(pos, x);
    assert(template_views(v@) =~= s0.take(pos as int).push(xv) + s0.skip(pos as int));
}

/// The templates ordered by language and then name, equal ones in their
/// given order.
pub fn ordered_templates(ts: &Vec<TemplateEntry>) -> (r: Vec<TemplateEntry>)
    ensures
        template_views(r@) == ordered(template_views(ts@)),
{
    let ghost tv = template_views(ts@);
    let mut r: Vec<TemplateEntry> = Vec::new();
    let mut i: usize = 0;
    while i < ts.len()
        invariant
            i <= ts@.len(),
            tv == template_views(ts@),
            template_views(r@) == ordered(tv.take(i as int)),
        decreases ts@.len() - i,
    {
        let x = copy_entry(&ts[i]);
        proof {
            let t = tv.take(i + 1);
            assert(t.drop_last() =~= tv.take(i as int));
            assert(t.last() == x@);
        }
        insert_entry(&mut r, x);
        i = i + 1;
    }
    assert(tv.take(ts@.len() as int) =~= tv);
    r
}

fn pad(s: &str, width: usize) -> (r: String)
    ensures
        r@ == padded(s@, width as nat),
{
    let n = crate::text::chars_of(s).len();
    let mut r = owned(s);
    let mut k: usize = n;
    while k < width
        invariant
            n == s@.len(),
            n <= k <= width || (k == n && n >= width),
            r@ == s@ + Seq::new((k - n) as nat, |i: int| ' '),
        decreases width - k,
    {
        push_char(&mut r, ' ');
        assert(r@ =~= s@ + Seq::new((k + 1 - n) as nat, |i: int| ' '));
        k = k + 1;
    }
    if n >= width {
        assert(r@ =~= s@);
    }
    r
}

fn row_text(language: &str, name: &str, description: &str) -> (r: String)
    ensures
        r@ == row(language@, name@, description@),
{
    let mut r = pad(language, 12);
    push_str(&mut r, " ");
    let n = pad(name, 20);
    push_str(&mut r, n.as_str());
    push_str(&mut r, " ");
    push_str(&mut r, description);
    r
}

/// The lines of the template table.
pub fn template_table(ts: &Vec<TemplateEntry>) -> (lines: Vec<String>)
    ensures
        lines@.map_values(|l: String| l@) == table(template_views(ts@)),
{
    let sorted = ordered_templates(ts);
    let ghost ov = template_views(sorted@);
    let mut lines: Vec<String> = Vec::new();
    lines.push(row_text("Language", "Name", "Description"));
    let mut i: usize = 0;
    while i < sorted.len()
        invariant
            i <= sorted@.len(),
            ov == template_views(sorted@),
            ov == ordered(template_views(ts@)),
            lines@.len() == i + 1,
            lines@[0]@ == row("Language"@, "Name"@, "Description"@),
            forall|k: int| 0 <= k < i ==> #[trigger] lines@[k + 1]@ == row(ov[k].language, ov[k].name, ov[k].description),
        decreases sorted@.len() - i,
    {
        let t = &sorted[i];
        assert(ov[i as int] == t@);
        lines.push(row_text(t.language.as_str(), t.name.as_str(), t.description.as_str()));
        i = i + 1;
    }
    let ghost expected = table(template_views(ts@));
    let ghost got = lines@.map_values(|l: String| l@);
    assert(got =~= expected) by {
        assert forall|k: int| 0 <= k < got.len() implies #[trigger] got[k] == expected[k] by {
            if k > 0 {
                assert(lines@[(k - 1) + 1]@ == row(ov[k - 1].language, ov[k - 1].name, ov[k - 1].description));
            }
        }
    }
    lines
}


/// No template comes after the one that follows it anywhere later.
pub open spec fn in_order(s: Seq<TemplateView>) -> bool {
    forall|i: int, j: int| 0 <= i < j < s.len() ==> !after(#[trigger] s[i], #[trigger] s[j])
}

proof fn lemma_text_le_total(a: Seq<char>, b: Seq<char>)
    ensures
        text_le(a, b) || text_le(b, a),
        text_le(a, b) && text_le(b, a) ==> a == b,
        text_le(a, a),
    decreases a.len(),
{
    if a.len() > 0 && b.len() > 0 && a[0] == b[0] {
        lemma_text_le_total(a.drop_first(), b.drop_first());
        if text_le(a, b) && text_le(b, a) {
            assert(a =~= seq![a[0]] + a.drop_first());
            assert(b =~= seq![b[0]] + b.drop_first());
        }
    }
    if a.len() > 0 {
        lemma_text_le_total(a.drop_first(), a.drop_first());
    }
}

proof fn lemma_text_le_trans(a: Seq<char>, b: Seq<char>, c: Seq<char>)
    requires
        text_le(a, b),
        text_le(b, c),
    ensures
        text_le(a, c),
    decreases a.len(),
{
    if a.len() > 0 && b.len() > 0 && c.len() > 0 && a[0] == b[0] && b[0] == c[0] {
        lemma_text_le_trans(a.drop_first(), b.drop_first(), c.drop_first());
    }
}

proof fn lemma_after_flip(a: TemplateView, b: TemplateView)
    ensures
        after(a, b) ==> !after(b, a),
        !after(a, a),
{
    lemma_text_le_total(a.language, b.language);
    lemma_text_le_total(a.name, b.name);
    lemma_text_le_total(b.language, a.language);
}

proof fn lemma_not_after_trans(a: TemplateView, b: TemplateView, c: TemplateView)
    requires
        !after(a, b),
        !after(b, c),
    ensures
        !after(a, c),
{
    lemma_text_le_trans(a.language, b.language, c.language);
    lemma_text_le_total(a.language, b.language);
    lemma_text_le_total(b.language, c.language);
    if a.language == c.language {
        assert(a.language == b.language);
        lemma_text_le_trans(a.name, b.name, c.name);
    }
}

proof fn lemma_insert_facts(s: Seq<TemplateView>, x: TemplateView)
    requires
        in_order(s),
    ensures
        in_order(insert_in_order(s, x)),
        insert_in_order(s, x).to_multiset() == s.to_multiset().insert(x),
        forall|y: TemplateView| #[trigger] insert_in_order(s, x).contains(y) ==> y == x || s.contains(y),
    decreases s.len(),
{
    broadcast use vstd::seq_lib::group_to_multiset_ensures;

    let r = insert_in_order(s, x);
    if s.len() == 0 {
        assert(r == seq![x]);
        assert(seq![x] =~= Seq::<TemplateView>::empty().push(x));
    } else if after(s.last(), x) {
        let d = s.drop_last();
        let l = s.last();
        assert(in_order(d));
        lemma_insert_facts(d, x);
        let q = insert_in_order(d, x);
        assert(r == q.push(l));
        assert(s =~= d.push(l));
        lemma_after_flip(l, x);
        assert forall|i: int, j: int| 0 <= i < j < r.len() implies !after(#[trigger] r[i], #[trigger] r[j]) by {
            if j == r.len() - 1 {
                assert(r[j] == l);
                assert(q.contains(r[i]));
                if r[i] != x {
                    let k = choose|k: int| 0 <= k < d.len() && d[k] == r[i];
                    assert(s[k] == r[i] && s[s.len() - 1] == l);
                }
            } else {
                assert(r[i] == q[i] && r[j] == q[j]);
            }
        }
        assert forall|y: TemplateView| #[trigger] r.contains(y) implies y == x || s.contains(y) by {
            if y != l {
                let k = choose|k: int| 0 <= k < r.len() && r[k] == y;
                assert(q.contains(y));
                if y != x {
                    let m = choose|m: int| 0 <= m < d.len() && d[m] == y;
                    assert(s[m] == y);
                }
            } else {
                assert(s[s.len() - 1] == y);
            }
        }
    } else {
        assert(r == s.push(x));
        assert forall|i: int, j: int| 0 <= i < j < r.len() implies !after(#[trigger] r[i], #[trigger] r[j]) by {
            if j == r.len() - 1 {
                if i < s.len() - 1 {
                    assert(!after(s[i], s[s.len() - 1]));
                    lemma_not_after_trans(s[i], s[s.len() - 1], x);
                }
            } else {
                assert(r[i] == s[i] && r[j] == s[j]);
            }
        }
        assert forall|y: TemplateView| #[trigger] r.contains(y) implies y == x || s.contains(y) by {
            let k = choose|k: int| 0 <= k < r.len() && r[k] == y;
            if k < s.len() {
                assert(s[k] == y);
            }
        }
    }
}

/// The templates that the table lists are ordered by language and then by
/// name, and they are the given templates, each as often as it was given.
pub proof fn lemma_ordered_templates(ts: Seq<TemplateView>)
    ensures
        in_order(ordered(ts)),
        ordered(ts).to_multiset() == ts.to_multiset(),
    decreases ts.len(),
{
    broadcast use vstd::seq_lib::group_to_multiset_ensures;

    if ts.len() == 0 {
        assert(ordered(ts) =~= Seq::<TemplateView>::empty());
        assert(ts =~= Seq::<TemplateView>::empty());
    } else {
        lemma_ordered_templates(ts.drop_last());
        lemma_insert_facts(ordered(ts.drop_last()), ts.last());
        assert(ts =~= ts.drop_last().push(ts.last()));
    }
}

} // verus!
