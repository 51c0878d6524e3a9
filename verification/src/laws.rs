//! Properties of the prompt collection that relate several operations.

use vstd::prelude::*;
use crate::text::{
    ascii_lower, ascii_upper, is_ascii_text, lemma_text_lt_irreflexive, lemma_text_lt_transitive, lowercase,
    occurs_in, text_lt,
};

use crate::app::{all_label, filtered_spec, has_tag};
use crate::db::{
    keyword_hit, matches_keyword, search_lowered, search_spec, strictly_sorted,
    delete_spec, find_spec, first_index, lemma_first_index, lemma_first_index_at,
    lemma_max_id_bounds, max_id_spec, update_spec, Prompt,
};

verus! {

/// No two prompts share an id.
pub open spec fn unique_ids(s: Seq<Prompt>) -> bool {
    forall|i: int, j: int| 0 <= i < j < s.len() ==> #[trigger] s[i].id != #[trigger] s[j].id
}

/// The id that a new prompt gets is held by no prompt yet.
pub proof fn law_next_id_is_fresh(s: Seq<Prompt>)
    requires
        max_id_spec(s) < u64::MAX,
    ensures
        find_spec(s, (max_id_spec(s) + 1) as u64) is None,
{
    lemma_max_id_bounds(s);
    lemma_first_index(s, (max_id_spec(s) + 1) as u64);
}

/// After a prompt is added under the next id, looking that id up gives
/// back exactly the added prompt.
pub proof fn law_add_then_find(s: Seq<Prompt>, title: String, tag: String, content: String, created: String)
    requires
        max_id_spec(s) < u64::MAX,
    ensures
        ({
            let id = (max_id_spec(s) + 1) as u64;
            let p = Prompt { id, title, tag, content, created };
            find_spec(s.push(p), id) == Some(p)
        }),
{
    let id = (max_id_spec(s) + 1) as u64;
    let p = Prompt { id, title, tag, content, created };
    let t = s.push(p);
    lemma_max_id_bounds(s);
    assert forall|j: int| 0 <= j < s.len() implies #[trigger] t[j].id != id by {
        assert(t[j] == s[j]);
    }
    lemma_first_index_at(t, id, s.len() as int);
}

/// Adding a prompt under the next id keeps the ids unique.
pub proof fn law_add_keeps_ids_unique(s: Seq<Prompt>, p: Prompt)
    requires
        unique_ids(s),
        max_id_spec(s) < u64::MAX,
        p.id == max_id_spec(s) + 1,
    ensures
        unique_ids(s.push(p)),
{
    lemma_max_id_bounds(s);
    let t = s.push(p);
    assert forall|i: int, j: int| 0 <= i < j < t.len() implies #[trigger] t[i].id != #[trigger] t[j].id by {
        assert(t[i] == s[i]);
        if j < s.len() {
            assert(t[j] == s[j]);
        }
    }
}

/// After a prompt is updated, looking its id up gives the new title, tag
/// and content with the old id and creation stamp; an id that no prompt
/// holds leaves the collection as it was.
pub proof fn law_update_then_find(s: Seq<Prompt>, id: u64, title: String, tag: String, content: String)
    ensures
        match find_spec(s, id) {
            Some(p) => find_spec(update_spec(s, id, title, tag, content), id) == Some(
                Prompt { id: p.id, title, tag, content, created: p.created },
            ),
            None => update_spec(s, id, title, tag, content) == s,
        },
{
    lemma_first_index(s, id);
    match first_index(s, id) {
        Some(i) => {
            let t = update_spec(s, id, title, tag, content);
            assert forall|j: int| 0 <= j < i implies #[trigger] t[j].id != id by {
                assert(t[j] == s[j]);
            }
            lemma_first_index_at(t, id, i);
        },
        None => {},
    }
}

/// An update changes no other prompt: every position keeps its id, and
/// looking up any other id gives what it gave before.
pub proof fn law_update_keeps_others(s: Seq<Prompt>, id: u64, other: u64, title: String, tag: String, content: String)
    requires
        other != id,
    ensures
        update_spec(s, id, title, tag, content).len() == s.len(),
        forall|j: int| 0 <= j < s.len() ==> #[trigger] update_spec(s, id, title, tag, content)[j].id == s[j].id,
        find_spec(update_spec(s, id, title, tag, content), other) == find_spec(s, other),
{
    lemma_first_index(s, id);
    let t = update_spec(s, id, title, tag, content);
    match first_index(s, id) {
        Some(i) => {
            assert forall|j: int| 0 <= j < s.len() && j != i implies #[trigger] t[j] == s[j] by {}
            lemma_first_index(s, other);
            match first_index(s, other) {
                Some(k) => {
                    assert(k != i);
                    assert forall|j: int| 0 <= j < k implies #[trigger] t[j].id != other by {
                        if j != i {
                            assert(t[j] == s[j]);
                        }
                    }
                    lemma_first_index_at(t, other, k);
                },
                None => {
                    lemma_first_index(t, other);
                    if first_index(t, other) is Some {
                        let k = first_index(t, other)->0;
                        if k != i {
                            assert(t[k] == s[k]);
                        }
                    }
                },
            }
        },
        None => {},
    }
}

/// After a deletion no prompt holds the id.
pub proof fn law_delete_then_find(s: Seq<Prompt>, id: u64)
    ensures
        find_spec(delete_spec(s, id), id) is None,
{
    broadcast use vstd::seq_lib::group_filter_ensures;
    let t = delete_spec(s, id);
    lemma_first_index(t, id);
    if first_index(t, id) is Some {
        let k = first_index(t, id)->0;
        assert(t[k].id != id);
    }
}

/// Looking an id up after appending a prompt: an earlier holder of the id
/// still wins; otherwise the appended prompt is found if it holds the id.
pub proof fn lemma_find_push(s: Seq<Prompt>, x: Prompt, id: u64)
    ensures
        find_spec(s.push(x), id) == match find_spec(s, id) {
            Some(p) => Some(p),
            None => if x.id == id {
                Some(x)
            } else {
                None
            },
        },
{
    let t = s.push(x);
    lemma_first_index(s, id);
    match first_index(s, id) {
        Some(i) => {
            assert forall|j: int| 0 <= j < i implies #[trigger] t[j].id != id by {
                assert(t[j] == s[j]);
            }
            lemma_first_index_at(t, id, i);
        },
        None => {
            if x.id == id {
                assert forall|j: int| 0 <= j < s.len() implies #[trigger] t[j].id != id by {
                    assert(t[j] == s[j]);
                }
                lemma_first_index_at(t, id, s.len() as int);
            } else {
                lemma_first_index(t, id);
                if first_index(t, id) is Some {
                    let k = first_index(t, id)->0;
                    if k < s.len() {
                        assert(t[k] == s[k]);
                    }
                }
            }
        },
    }
}

/// A deletion changes no other prompt: looking up any other id gives what
/// it gave before.
pub proof fn law_delete_keeps_others(s: Seq<Prompt>, id: u64, other: u64)
    requires
        other != id,
    ensures
        find_spec(delete_spec(s, id), other) == find_spec(s, other),
    decreases s.len(),
{
    if s.len() == 0 {
        reveal_with_fuel(Seq::<_>::filter, 1);
    } else {
        let r = s.drop_last();
        let x = s.last();
        assert(s =~= r.push(x));
        law_delete_keeps_others(r, id, other);
        r.lemma_filter_push(x, |p: Prompt| p.id != id);
        lemma_find_push(r, x, other);
        lemma_find_push(delete_spec(r, id), x, other);
    }
}

/// Appending a prompt whose id no prompt holds keeps the ids unique.
pub proof fn lemma_unique_push(s: Seq<Prompt>, x: Prompt)
    requires
        unique_ids(s),
        forall|j: int| 0 <= j < s.len() ==> #[trigger] s[j].id != x.id,
    ensures
        unique_ids(s.push(x)),
{
    let t = s.push(x);
    assert forall|i: int, j: int| 0 <= i < j < t.len() implies #[trigger] t[i].id != #[trigger] t[j].id by {
        assert(t[i] == s[i]);
        if j < s.len() {
            assert(t[j] == s[j]);
        }
    }
}

/// A deletion keeps the ids unique.
pub proof fn law_delete_keeps_ids_unique(s: Seq<Prompt>, id: u64)
    requires
        unique_ids(s),
    ensures
        unique_ids(delete_spec(s, id)),
    decreases s.len(),
{
    if s.len() == 0 {
        reveal_with_fuel(Seq::<_>::filter, 1);
    } else {
        let r = s.drop_last();
        let x = s.last();
        assert(s =~= r.push(x));
        assert(unique_ids(r)) by {
            assert forall|i: int, j: int| 0 <= i < j < r.len() implies #[trigger] r[i].id != #[trigger] r[j].id by {
                assert(r[i] == s[i]);
                assert(r[j] == s[j]);
            }
        }
        law_delete_keeps_ids_unique(r, id);
        let pred = |p: Prompt| p.id != id;
        r.lemma_filter_push(x, pred);
        let d = delete_spec(r, id);
        if pred(x) {
            assert forall|j: int| 0 <= j < d.len() implies #[trigger] d[j].id != x.id by {
                assert(d.contains(d[j]));
                r.lemma_filter_contains_rev(pred, d[j]);
                let k = choose|k: int| 0 <= k < r.len() && r[k] == d[j];
                assert(s[k] == r[k]);
                assert(s[s.len() - 1] == x);
            }
            lemma_unique_push(d, x);
        }
    }
}

/// An update keeps the ids unique.
pub proof fn law_update_keeps_ids_unique(s: Seq<Prompt>, id: u64, title: String, tag: String, content: String)
    requires
        unique_ids(s),
    ensures
        unique_ids(update_spec(s, id, title, tag, content)),
{
    lemma_first_index(s, id);
}

/// A search lists only prompts that match the keyword, ignoring case, and
/// every prompt that matches it.
pub proof fn law_search_lists_exactly_the_matches(s: Seq<Prompt>, keyword: Seq<char>)
    ensures
        forall|i: int| 0 <= i < search_spec(s, keyword).len() ==> matches_keyword(
            #[trigger] search_spec(s, keyword)[i],
            lowercase(keyword),
        ),
        forall|i: int| 0 <= i < s.len() && matches_keyword(s[i], lowercase(keyword))
            ==> #[trigger] search_spec(s, keyword).contains(s[i]),
        forall|p: Prompt| #[trigger] search_spec(s, keyword).contains(p) ==> s.contains(p),
{
    broadcast use vstd::seq_lib::group_filter_ensures;
    let pred = crate::db::keyword_hit(lowercase(keyword));
    assert forall|i: int| 0 <= i < search_spec(s, keyword).len() implies matches_keyword(
        #[trigger] search_spec(s, keyword)[i],
        lowercase(keyword),
    ) by {
        assert(pred(s.filter(pred)[i]));
    }
    assert forall|i: int| 0 <= i < s.len() && matches_keyword(s[i], lowercase(keyword)) implies #[trigger] search_spec(
        s,
        keyword,
    ).contains(s[i]) by {
        assert(pred(s[i]));
    }
    assert forall|p: Prompt| #[trigger] search_spec(s, keyword).contains(p) implies s.contains(p) by {
        s.lemma_filter_contains_rev(pred, p);
    }
}

/// With no keyword and every tag chosen, the list shows every prompt in
/// order.
pub proof fn law_unfiltered_lists_everything(s: Seq<Prompt>)
    ensures
        filtered_spec(s, Seq::<char>::empty(), all_label()) == s,
{
}

/// With a tag chosen, the list shows only prompts that carry it, each of
/// them a prompt of the collection.
pub proof fn law_filtered_respects_tag(s: Seq<Prompt>, search: Seq<char>, tag: Seq<char>)
    requires
        tag != all_label(),
    ensures
        forall|i: int| 0 <= i < filtered_spec(s, search, tag).len() ==> (#[trigger] filtered_spec(s, search, tag)[i]).tag@ == tag,
        forall|p: Prompt| #[trigger] filtered_spec(s, search, tag).contains(p) ==> s.contains(p),
{
    broadcast use vstd::seq_lib::group_filter_ensures;
    let base = if search.len() == 0 {
        s
    } else {
        search_spec(s, search)
    };
    assert forall|i: int| 0 <= i < filtered_spec(s, search, tag).len() implies (#[trigger] filtered_spec(s, search, tag)[i]).tag@ == tag by {
        assert(has_tag(tag)(base.filter(has_tag(tag))[i]));
    }
    assert forall|p: Prompt| #[trigger] filtered_spec(s, search, tag).contains(p) implies s.contains(p) by {
        base.lemma_filter_contains_rev(has_tag(tag), p);
        if search.len() > 0 {
            s.lemma_filter_contains_rev(crate::db::keyword_hit(lowercase(search)), p);
        }
    }
}

/// Two strictly increasing lists of texts with the same members are the
/// same list; so the tag list is determined by the tags in use.
pub proof fn law_sorted_tags_are_determined(a: Seq<Seq<char>>, b: Seq<Seq<char>>)
    requires
        strictly_sorted(a),
        strictly_sorted(b),
        a.to_set() == b.to_set(),
    ensures
        a == b,
    decreases a.len(),
{
    if a.len() == 0 {
        if b.len() > 0 {
            assert(b.to_set().contains(b[0]));
        }
        assert(a =~= b);
    } else {
        assert(a.to_set().contains(a[0]));
        assert(b.contains(a[0]));
        assert(b.len() > 0);
        assert(b.to_set().contains(b[0]));
        assert(a.contains(b[0]));
        if a[0] != b[0] {
            let k = choose|k: int| 0 <= k < a.len() && a[k] == b[0];
            let m = choose|m: int| 0 <= m < b.len() && b[m] == a[0];
            assert(k > 0 && m > 0);
            assert(text_lt(a[0], a[k]));
            assert(text_lt(b[0], b[m]));
            lemma_text_lt_transitive(a[0], b[0], a[0]);
            lemma_text_lt_irreflexive(a[0]);
        }
        let ra = a.drop_first();
        let rb = b.drop_first();
        assert(strictly_sorted(ra)) by {
            assert forall|i: int, j: int| 0 <= i < j < ra.len() implies text_lt(#[trigger] ra[i], #[trigger] ra[j]) by {
                assert(ra[i] == a[i + 1] && ra[j] == a[j + 1]);
            }
        }
        assert(strictly_sorted(rb)) by {
            assert forall|i: int, j: int| 0 <= i < j < rb.len() implies text_lt(#[trigger] rb[i], #[trigger] rb[j]) by {
                assert(rb[i] == b[i + 1] && rb[j] == b[j + 1]);
            }
        }
        assert forall|x: Seq<char>| #[trigger] ra.to_set().contains(x) <==> rb.to_set().contains(x) by {
            if ra.contains(x) {
                let i = choose|i: int| 0 <= i < ra.len() && ra[i] == x;
                assert(a[i + 1] == x);
                assert(text_lt(a[0], x));
                lemma_text_lt_irreflexive(x);
                assert(a.to_set().contains(x));
                assert(b.contains(x));
                let j = choose|j: int| 0 <= j < b.len() && b[j] == x;
                assert(j != 0);
                assert(rb[j - 1] == x);
            }
            if rb.contains(x) {
                let i = choose|i: int| 0 <= i < rb.len() && rb[i] == x;
                assert(b[i + 1] == x);
                assert(text_lt(b[0], x));
                lemma_text_lt_irreflexive(x);
                assert(b.to_set().contains(x));
                assert(a.contains(x));
                let j = choose|j: int| 0 <= j < a.len() && a[j] == x;
                assert(j != 0);
                assert(ra[j - 1] == x);
            }
        }
        assert(ra.to_set() =~= rb.to_set());
        law_sorted_tags_are_determined(ra, rb);
        assert(a =~= seq![a[0]] + ra);
        assert(b =~= seq![b[0]] + rb);
    }
}

/// Filtering by a predicate, then by a stronger one, is filtering by the
/// stronger one.
pub proof fn lemma_filter_narrow(s: Seq<Prompt>, weak: spec_fn(Prompt) -> bool, strong: spec_fn(Prompt) -> bool)
    requires
        forall|p: Prompt| #[trigger] strong(p) ==> weak(p),
    ensures
        s.filter(weak).filter(strong) == s.filter(strong),
    decreases s.len(),
{
    if s.len() == 0 {
        reveal_with_fuel(Seq::<_>::filter, 1);
        assert(s.filter(weak) =~= s);
    } else {
        let r = s.drop_last();
        let x = s.last();
        assert(s =~= r.push(x));
        lemma_filter_narrow(r, weak, strong);
        r.lemma_filter_push(x, weak);
        r.lemma_filter_push(x, strong);
        r.filter(weak).lemma_filter_push(x, strong);
    }
}

/// Filtering by a predicate that every element meets keeps everything.
pub proof fn lemma_filter_all(s: Seq<Prompt>, pred: spec_fn(Prompt) -> bool)
    requires
        forall|i: int| 0 <= i < s.len() ==> #[trigger] pred(s[i]),
    ensures
        s.filter(pred) == s,
    decreases s.len(),
{
    if s.len() == 0 {
        reveal_with_fuel(Seq::<_>::filter, 1);
    } else {
        let r = s.drop_last();
        let x = s.last();
        assert(s =~= r.push(x));
        assert forall|i: int| 0 <= i < r.len() implies #[trigger] pred(r[i]) by {
            assert(r[i] == s[i]);
        }
        lemma_filter_all(r, pred);
        r.lemma_filter_push(x, pred);
    }
}

/// Containment of texts is transitive.
pub proof fn lemma_occurs_transitive(h: Seq<char>, a: Seq<char>, b: Seq<char>)
    requires
        occurs_in(h, a),
        occurs_in(a, b),
    ensures
        occurs_in(h, b),
{
    let i = choose|i: int| 0 <= i && i + a.len() <= h.len() && #[trigger] h.subrange(i, i + a.len()) == a;
    let j = choose|j: int| 0 <= j && j + b.len() <= a.len() && #[trigger] a.subrange(j, j + b.len()) == b;
    assert(h.subrange(i + j, i + j + b.len()) =~= b) by {
        assert forall|k: int| 0 <= k < b.len() implies h.subrange(i + j, i + j + b.len())[k] == b[k] by {
            assert(a[j + k] == h.subrange(i, i + a.len())[j + k]);
            assert(b[k] == a.subrange(j, j + b.len())[k]);
        }
    }
}

/// Lower-casing ASCII letters keeps containment.
pub proof fn lemma_occurs_ascii_lower(h: Seq<char>, n: Seq<char>)
    requires
        occurs_in(h, n),
    ensures
        occurs_in(ascii_lower(h), ascii_lower(n)),
{
    let i = choose|i: int| 0 <= i && i + n.len() <= h.len() && #[trigger] h.subrange(i, i + n.len()) == n;
    let lh = ascii_lower(h);
    let ln = ascii_lower(n);
    assert(lh.subrange(i, i + ln.len()) =~= ln) by {
        assert forall|k: int| 0 <= k < ln.len() implies lh.subrange(i, i + ln.len())[k] == ln[k] by {
            assert(n[k] == h.subrange(i, i + n.len())[k]);
        }
    }
}

/// Searching ignores the ASCII case of the keyword: an ASCII keyword, its
/// capitalised form and its small-letter form all list the same prompts.
pub proof fn law_search_ignores_ascii_case(s: Seq<Prompt>, keyword: Seq<char>)
    requires
        is_ascii_text(keyword),
    ensures
        is_ascii_text(ascii_upper(keyword)),
        is_ascii_text(ascii_lower(keyword)),
        search_lowered(s, ascii_lower(ascii_upper(keyword))) == search_lowered(s, ascii_lower(keyword)),
        search_lowered(s, ascii_lower(ascii_lower(keyword))) == search_lowered(s, ascii_lower(keyword)),
{
    assert(ascii_lower(ascii_upper(keyword)) =~= ascii_lower(keyword));
    assert(ascii_lower(ascii_lower(keyword)) =~= ascii_lower(keyword));
    assert forall|i: int| 0 <= i < ascii_upper(keyword).len() implies (#[trigger] ascii_upper(keyword)[i] as int) < 128 by {
        assert((keyword[i] as int) < 128);
    }
    assert forall|i: int| 0 <= i < ascii_lower(keyword).len() implies (#[trigger] ascii_lower(keyword)[i] as int) < 128 by {
        assert((keyword[i] as int) < 128);
    }
}

/// The empty keyword matches every prompt.
pub proof fn law_empty_keyword_lists_everything(s: Seq<Prompt>)
    ensures
        is_ascii_text(Seq::<char>::empty()),
        search_lowered(s, ascii_lower(Seq::<char>::empty())) == s,
{
    let e = Seq::<char>::empty();
    assert(ascii_lower(e) =~= e);
    assert forall|i: int| 0 <= i < s.len() implies #[trigger] keyword_hit(e)(s[i]) by {
        let h = lowercase(s[i].title@);
        assert(h.subrange(0, 0 + e.len() as int) =~= e);
        assert(occurs_in(h, e));
    }
    lemma_filter_all(s, keyword_hit(e));
}

/// A keyword that contains a shorter one lists only prompts that the
/// shorter one lists, in the same order: exactly those of the shorter
/// keyword's list that it matches itself.
pub proof fn law_longer_keyword_narrows(s: Seq<Prompt>, short: Seq<char>, long: Seq<char>)
    requires
        is_ascii_text(short),
        is_ascii_text(long),
        occurs_in(long, short),
    ensures
        search_lowered(s, ascii_lower(long)) == search_lowered(s, ascii_lower(short)).filter(
            keyword_hit(ascii_lower(long)),
        ),
{
    let ls = ascii_lower(short);
    let ll = ascii_lower(long);
    lemma_occurs_ascii_lower(long, short);
    assert forall|p: Prompt| #[trigger] keyword_hit(ll)(p) implies keyword_hit(ls)(p) by {
        if occurs_in(lowercase(p.title@), ll) {
            lemma_occurs_transitive(lowercase(p.title@), ll, ls);
        } else if occurs_in(lowercase(p.tag@), ll) {
            lemma_occurs_transitive(lowercase(p.tag@), ll, ls);
        } else {
            lemma_occurs_transitive(lowercase(p.content@), ll, ls);
        }
    }
    lemma_filter_narrow(s, keyword_hit(ls), keyword_hit(ll));
}

} // verus!
