//! The prompt records and the in-memory collection that holds them.

use vstd::prelude::*;

use crate::clock::{is_stamp, now_stamp};
use crate::text::{
    ascii_lower, is_ascii_text, lemma_text_lt_total, lemma_text_lt_transitive, lowercase, occurs_in, str_contains, str_lt, text_lt,
    to_lower,
};

verus! {

/// One saved prompt.
pub struct Prompt {
    pub id: u64,
    pub title: String,
    pub tag: String,
    pub content: String,
    /// When the prompt was created, as `YYYY-MM-DD HH:MM` local time.
    pub created: String,
}

impl Prompt {
    /// A copy of this prompt, field for field.
    pub fn duplicate(&self) -> (r: Prompt)
        ensures
            r == *self,
    {
        Prompt {
            id: self.id,
            title: self.title.clone(),
            tag: self.tag.clone(),
            content: self.content.clone(),
            created: self.created.clone(),
        }
    }
}

/// The prompts, in the order in which they are kept and shown.
pub struct PromptDB {
    pub data: Vec<Prompt>,
}

impl View for PromptDB {
    type V = Seq<Prompt>;

    open spec fn view(&self) -> Seq<Prompt> {
        self.data@
    }
}

/// The position of the first prompt with the given id, if there is one.
pub open spec fn first_index(s: Seq<Prompt>, id: u64) -> Option<int>
    decreases s.len(),
{
    if s.len() == 0 {
        None
    } else if s[0].id == id {
        Some(0)
    } else {
        match first_index(s.drop_first(), id) {
            Some(i) => Some(i + 1),
            None => None,
        }
    }
}

/// The first prompt with the given id, if there is one.
pub open spec fn find_spec(s: Seq<Prompt>, id: u64) -> Option<Prompt> {
    match first_index(s, id) {
        Some(i) => Some(s[i]),
        None => None,
    }
}

/// `first_index` is the least position holding the id, and `None` exactly
/// when no position holds it.
pub proof fn lemma_first_index(s: Seq<Prompt>, id: u64)
    ensures
        match first_index(s, id) {
            Some(i) => 0 <= i < s.len() && s[i].id == id && forall|j: int|
                0 <= j < i ==> #[trigger] s[j].id != id,
            None => forall|j: int| 0 <= j < s.len() ==> #[trigger] s[j].id != id,
        },
    decreases s.len(),
{
    if s.len() > 0 && s[0].id != id {
        lemma_first_index(s.drop_first(), id);
        let t = s.drop_first();
        match first_index(t, id) {
            Some(i) => {
                assert forall|j: int| 0 <= j < i + 1 implies #[trigger] s[j].id != id by {
                    if j > 0 {
                        assert(s[j] == t[j - 1]);
                    }
                }
            },
            None => {
                assert forall|j: int| 0 <= j < s.len() implies #[trigger] s[j].id != id by {
                    if j > 0 {
                        assert(s[j] == t[j - 1]);
                    }
                }
            },
        }
    }
}

/// A position that holds the id, with no earlier one, is the first index.
pub proof fn lemma_first_index_at(s: Seq<Prompt>, id: u64, i: int)
    requires
        0 <= i < s.len(),
        s[i].id == id,
        forall|j: int| 0 <= j < i ==> #[trigger] s[j].id != id,
    ensures
        first_index(s, id) == Some(i),
{
    lemma_first_index(s, id);
    match first_index(s, id) {
        Some(k) => {
            if k < i {
                assert(s[k].id != id);
            } else if k > i {
                assert(s[i].id != id);
            }
        },
        None => {
            assert(s[i].id != id);
        },
    }
}

/// The largest id held, or 0 when there are no prompts.
pub open spec fn max_id_spec(s: Seq<Prompt>) -> u64
    decreases s.len(),
{
    if s.len() == 0 {
        0
    } else {
        let m = max_id_spec(s.drop_last());
        if s.last().id > m {
            s.last().id
        } else {
            m
        }
    }
}

/// No prompt has an id above `max_id_spec`.
pub proof fn lemma_max_id_bounds(s: Seq<Prompt>)
    ensures
        forall|j: int| 0 <= j < s.len() ==> #[trigger] s[j].id <= max_id_spec(s),
    decreases s.len(),
{
    if s.len() > 0 {
        lemma_max_id_bounds(s.drop_last());
        assert forall|j: int| 0 <= j < s.len() implies #[trigger] s[j].id <= max_id_spec(s) by {
            if j < s.len() - 1 {
                assert(s[j] == s.drop_last()[j]);
            }
        }
    }
}

/// A prompt matches a lower-cased keyword when the keyword occurs in the
/// lower-cased title, tag or content.
pub open spec fn matches_keyword(p: Prompt, kw: Seq<char>) -> bool {
    occurs_in(lowercase(p.title@), kw) || occurs_in(lowercase(p.tag@), kw) || occurs_in(
        lowercase(p.content@),
        kw,
    )
}

/// The prompts that match `keyword`, ignoring case, in their order.
pub open spec fn search_spec(s: Seq<Prompt>, keyword: Seq<char>) -> Seq<Prompt> {
    search_lowered(s, lowercase(keyword))
}

/// Whether a prompt matches the lower-cased keyword `kw`.
pub open spec fn keyword_hit(kw: Seq<char>) -> spec_fn(Prompt) -> bool {
    |p: Prompt| matches_keyword(p, kw)
}

/// The prompts that match the lower-cased keyword `kw`, in their order.
pub open spec fn search_lowered(s: Seq<Prompt>, kw: Seq<char>) -> Seq<Prompt> {
    s.filter(keyword_hit(kw))
}

/// The prompts that a list of references points to.
pub open spec fn targets(v: Seq<&Prompt>) -> Seq<Prompt> {
    v.map_values(|r: &Prompt| *r)
}

/// The collection after the first prompt with `id` gets the new title, tag
/// and content; unchanged when no prompt has that id.
pub open spec fn update_spec(s: Seq<Prompt>, id: u64, title: String, tag: String, content: String) -> Seq<Prompt> {
    match first_index(s, id) {
        Some(i) => s.update(i, Prompt { id: s[i].id, title, tag, content, created: s[i].created }),
        None => s,
    }
}

/// The collection without any prompt whose id is `id`.
pub open spec fn delete_spec(s: Seq<Prompt>, id: u64) -> Seq<Prompt> {
    s.filter(|p: Prompt| p.id != id)
}

/// The tags of the prompts, as a set of texts.
pub open spec fn tag_set(s: Seq<Prompt>) -> Set<Seq<char>> {
    s.map_values(|p: Prompt| p.tag@).to_set()
}

/// Texts in strictly increasing order, so each appears once.
pub open spec fn strictly_sorted(v: Seq<Seq<char>>) -> bool {
    forall|i: int, j: int| 0 <= i < j < v.len() ==> text_lt(#[trigger] v[i], #[trigger] v[j])
}

/// The texts of a list of strings.
pub open spec fn texts(v: Seq<String>) -> Seq<Seq<char>> {
    v.map_values(|t: String| t@)
}

/// Puts `t` into its place in a strictly increasing list of texts, unless
/// the list already holds it.
fn insert_sorted(v: &mut Vec<String>, t: String)
    requires
        strictly_sorted(texts(old(v)@)),
    ensures
        strictly_sorted(texts(final(v)@)),
        texts(final(v)@).to_set() == texts(old(v)@).to_set().insert(t@),
{
    let ghost ts = texts(v@);
    let n: usize = v.len();
    let mut k: usize = 0;
    while k < n
        invariant
            n == v@.len(),
            v@ == old(v)@,
            ts == texts(v@),
            k <= n,
            forall|j: int| 0 <= j < k ==> text_lt(#[trigger] ts[j], t@),
        ensures
            n == v@.len(),
            v@ == old(v)@,
            ts == texts(v@),
            k <= n,
            forall|j: int| 0 <= j < k ==> text_lt(#[trigger] ts[j], t@),
            k < n ==> !text_lt(ts[k as int], t@),
        decreases n - k,
    {
        if !str_lt(v[k].as_str(), t.as_str()) {
            break;
        }
        k = k + 1;
    }
    if k < n && v[k] == t {
        assert(ts[k as int] == t@);
        assert(texts(v@).to_set() =~= ts.to_set().insert(t@));
        return;
    }
    proof {
        if k < n {
            assert(ts[k as int] != t@);
            lemma_text_lt_total(ts[k as int], t@);
            assert forall|j: int| k <= j < n implies text_lt(t@, #[trigger] ts[j]) by {
                if j > k {
                    lemma_text_lt_transitive(t@, ts[k as int], ts[j]);
                }
            }
        }
    }
    v.insert(k, t);
    proof {
        let us = texts(v@);
        assert(us =~= ts.insert(k as int, t@));
        ts.insert_ensures(k as int, t@);
        assert forall|i: int, j: int| 0 <= i < j < us.len() implies text_lt(#[trigger] us[i], #[trigger] us[j]) by {
            if j < k {
            } else if j == k {
            } else if i < k {
                assert(us[j] == ts[j - 1]);
                if j - 1 >= k {
                    lemma_text_lt_transitive(us[i], t@, ts[j - 1]);
                }
            } else if i == k {
                assert(us[j] == ts[j - 1]);
            } else {
                assert(us[i] == ts[i - 1]);
                assert(us[j] == ts[j - 1]);
            }
        }
        assert forall|x: Seq<char>| #[trigger] us.to_set().contains(x) <==> ts.to_set().insert(t@).contains(x) by {
            if us.contains(x) {
                let j = choose|j: int| 0 <= j < us.len() && us[j] == x;
                if j < k {
                    assert(ts[j] == x);
                } else if j > k {
                    assert(ts[j - 1] == x);
                }
            }
            if ts.contains(x) {
                let j = choose|j: int| 0 <= j < ts.len() && ts[j] == x;
                if j < k {
                    assert(us[j] == x);
                } else {
                    assert(us[j + 1] == x);
                }
            }
            if x == t@ {
                assert(us[k as int] == x);
            }
        }
        assert(us.to_set() =~= ts.to_set().insert(t@));
    }
}

/// The two sample prompts that a new collection starts with, both stamped
/// `created`.
pub fn default_prompts(created: String) -> (v: Vec<Prompt>)
    ensures
        v@.len() == 2,
        v@[0].id == 1,
        v@[0].title@ == "代码审查助手"@,
        v@[0].tag@ == "编程"@,
        v@[0].content@ == "请审查以下代码，关注：1) 潜在 bug  2) 性能问题  3) 可读性改进"@,
        v@[0].created == created,
        v@[1].id == 2,
        v@[1].title@ == "论文润色"@,
        v@[1].tag@ == "学术"@,
        v@[1].content@ == "请润色以下学术段落，使其更符合 SCI 论文写作规范，保持原意不变。"@,
        v@[1].created == created,
{
    let first = Prompt {
        id: 1,
        title: String::from_str("代码审查助手"),
        tag: String::from_str("编程"),
        content: String::from_str("请审查以下代码，关注：1) 潜在 bug  2) 性能问题  3) 可读性改进"),
        created: created.clone(),
    };
    let second = Prompt {
        id: 2,
        title: String::from_str("论文润色"),
        tag: String::from_str("学术"),
        content: String::from_str("请润色以下学术段落，使其更符合 SCI 论文写作规范，保持原意不变。"),
        created,
    };
    let mut v: Vec<Prompt> = Vec::new();
    v.push(first);
    v.push(second);
    v
}

impl PromptDB {
    /// The sample prompts, stamped with the current local time; what a
    /// collection holds when there is no saved file yet.
    pub fn default_data() -> (v: Vec<Prompt>)
        ensures
            v@.len() == 2,
            v@[0].id == 1,
            v@[0].title@ == "代码审查助手"@,
            v@[0].tag@ == "编程"@,
            v@[0].content@ == "请审查以下代码，关注：1) 潜在 bug  2) 性能问题  3) 可读性改进"@,
            v@[1].id == 2,
            v@[1].title@ == "论文润色"@,
            v@[1].tag@ == "学术"@,
            v@[1].content@ == "请润色以下学术段落，使其更符合 SCI 论文写作规范，保持原意不变。"@,
            v@[0].created == v@[1].created,
            is_stamp(v@[0].created@),
    {
        default_prompts(now_stamp("%Y-%m-%d %H:%M"))
    }

    /// A collection holding the given prompts, in the given order.
    pub fn new(data: Vec<Prompt>) -> (r: PromptDB)
        ensures
            r@ == data@,
    {
        PromptDB { data }
    }

    /// The largest id held, or 0 when there are no prompts.
    pub fn max_id(&self) -> (r: u64)
        ensures
            r == max_id_spec(self@),
    {
        let mut m: u64 = 0;
        let mut i: usize = 0;
        while i < self.data.len()
            invariant
                i <= self@.len(),
                m == max_id_spec(self@.take(i as int)),
            decreases self@.len() - i,
        {
            assert(self@.take(i + 1).drop_last() =~= self@.take(i as int));
            if self.data[i].id > m {
                m = self.data[i].id;
            }
            i = i + 1;
        }
        assert(self@.take(i as int) =~= self@);
        m
    }

    /// Appends a prompt with the next id (one above the largest held) and
    /// the given fields, and returns that id.
    pub fn insert_prompt(&mut self, title: String, tag: String, content: String, created: String) -> (r: u64)
        requires
            max_id_spec(old(self)@) < u64::MAX,
        ensures
            r == max_id_spec(old(self)@) + 1,
            final(self)@ == old(self)@.push(Prompt { id: r, title, tag, content, created }),
    {
        let id = self.max_id() + 1;
        self.data.push(Prompt { id, title, tag, content, created });
        id
    }

    /// Appends a new prompt stamped with the current local time, and returns
    /// its id, one above the largest id held.
    pub fn add(&mut self, title: String, tag: String, content: String) -> (r: u64)
        requires
            max_id_spec(old(self)@) < u64::MAX,
        ensures
            r == max_id_spec(old(self)@) + 1,
            final(self)@.len() == old(self)@.len() + 1,
            final(self)@.drop_last() == old(self)@,
            final(self)@.last().id == r,
            final(self)@.last().title == title,
            final(self)@.last().tag == tag,
            final(self)@.last().content == content,
            is_stamp(final(self)@.last().created@),
    {
        let created = now_stamp("%Y-%m-%d %H:%M");
        let r = self.insert_prompt(title, tag, content, created);
        assert(self@.drop_last() =~= old(self)@);
        r
    }
}

impl PromptDB {
    /// The prompts whose title, tag or content contains `keyword`, ignoring
    /// case, in the order in which they are kept.
    pub fn search(&self, keyword: &str) -> (r: Vec<&Prompt>)
        ensures
            targets(r@) == search_spec(self@, keyword@),
            is_ascii_text(keyword@) ==> targets(r@) == search_lowered(self@, ascii_lower(keyword@)),
    {
        let kw = to_lower(keyword);
        let ghost pred = keyword_hit(lowercase(keyword@));
        let mut r: Vec<&Prompt> = Vec::new();
        let mut i: usize = 0;
        while i < self.data.len()
            invariant
                i <= self@.len(),
                kw@ == lowercase(keyword@),
                pred == keyword_hit(lowercase(keyword@)),
                is_ascii_text(keyword@) ==> kw@ == ascii_lower(keyword@),
                targets(r@) == self@.take(i as int).filter(pred),
            decreases self@.len() - i,
        {
            let p = &self.data[i];
            let t = to_lower(p.title.as_str());
            let g = to_lower(p.tag.as_str());
            let c = to_lower(p.content.as_str());
            let hit = str_contains(t.as_str(), kw.as_str()) || str_contains(g.as_str(), kw.as_str())
                || str_contains(c.as_str(), kw.as_str());
            proof {
                reveal_with_fuel(Seq::<_>::filter, 1);
                assert(self@.take(i + 1).drop_last() =~= self@.take(i as int));
                assert(hit == pred(self@[i as int]));
            }
            let ghost old_r = r@;
            if hit {
                r.push(p);
                assert(targets(r@) =~= targets(old_r).push(*p));
            }
            i = i + 1;
        }
        assert(self@.take(i as int) =~= self@);
        r
    }

    /// Every tag in use, once each, in increasing order.
    pub fn all_tags(&self) -> (r: Vec<String>)
        ensures
            strictly_sorted(texts(r@)),
            texts(r@).to_set() == tag_set(self@),
    {
        let mut r: Vec<String> = Vec::new();
        let mut i: usize = 0;
        assert(texts(r@).to_set() =~= tag_set(self@.take(0)));
        while i < self.data.len()
            invariant
                i <= self@.len(),
                strictly_sorted(texts(r@)),
                texts(r@).to_set() == tag_set(self@.take(i as int)),
            decreases self@.len() - i,
        {
            let tag = self.data[i].tag.clone();
            insert_sorted(&mut r, tag);
            proof {
                let a = self@.take(i as int).map_values(|p: Prompt| p.tag@);
                let b = self@.take(i + 1).map_values(|p: Prompt| p.tag@);
                assert(b =~= a.push(self@[i as int].tag@));
                assert forall|x: Seq<char>| #[trigger] b.to_set().contains(x) <==> a.to_set().insert(self@[i as int].tag@).contains(x) by {
                    if b.contains(x) {
                        let j = choose|j: int| 0 <= j < b.len() && b[j] == x;
                        if j < a.len() {
                            assert(a[j] == x);
                        }
                    }
                    if a.contains(x) {
                        let j = choose|j: int| 0 <= j < a.len() && a[j] == x;
                        assert(b[j] == x);
                    }
                    if x == self@[i as int].tag@ {
                        assert(b[i as int] == x);
                    }
                }
                assert(b.to_set() =~= a.to_set().insert(self@[i as int].tag@));
            }
            i = i + 1;
        }
        assert(self@.take(i as int) =~= self@);
        r
    }

    /// References to every prompt, in order.
    pub fn all_refs(&self) -> (r: Vec<&Prompt>)
        ensures
            targets(r@) == self@,
    {
        let mut r: Vec<&Prompt> = Vec::new();
        let mut i: usize = 0;
        while i < self.data.len()
            invariant
                i <= self@.len(),
                targets(r@) == self@.take(i as int),
            decreases self@.len() - i,
        {
            let ghost old_r = r@;
            let p: &Prompt = &self.data[i];
            r.push(p);
            assert(targets(r@) =~= targets(old_r).push(*p));
            assert(self@.take(i + 1) =~= self@.take(i as int).push(self@[i as int]));
            i = i + 1;
        }
        assert(self@.take(i as int) =~= self@);
        r
    }

    /// The position of the first prompt with `id`.
    fn position(&self, id: u64) -> (r: Option<usize>)
        ensures
            match r {
                Some(i) => i < self@.len() && first_index(self@, id) == Some(i as int),
                None => first_index(self@, id) is None,
            },
    {
        let mut i: usize = 0;
        while i < self.data.len()
            invariant
                i <= self@.len(),
                forall|j: int| 0 <= j < i ==> #[trigger] self@[j].id != id,
            decreases self@.len() - i,
        {
            if self.data[i].id == id {
                proof {
                    lemma_first_index_at(self@, id, i as int);
                }
                return Some(i);
            }
            i = i + 1;
        }
        proof {
            lemma_first_index(self@, id);
            if first_index(self@, id) is Some {
                let k = first_index(self@, id)->0;
                assert(self@[k].id != id);
            }
        }
        None
    }

    /// The first prompt with `id`, if there is one.
    pub fn find(&self, id: u64) -> (r: Option<&Prompt>)
        ensures
            match r {
                Some(p) => find_spec(self@, id) == Some(*p),
                None => find_spec(self@, id) is None,
            },
    {
        match self.position(id) {
            Some(i) => Some(&self.data[i]),
            None => None,
        }
    }

    /// Gives the first prompt with `id` the new title, tag and content; its
    /// id and creation stamp stay. Returns whether such a prompt existed.
    pub fn update(&mut self, id: u64, title: String, tag: String, content: String) -> (r: bool)
        ensures
            r == first_index(old(self)@, id) is Some,
            final(self)@ == update_spec(old(self)@, id, title, tag, content),
    {
        match self.position(id) {
            Some(i) => {
                let created = self.data[i].created.clone();
                let pid = self.data[i].id;
                self.data.set(i, Prompt { id: pid, title, tag, content, created });
                true
            },
            None => false,
        }
    }

    /// Removes every prompt whose id is `id`; the rest keep their order.
    pub fn delete(&mut self, id: u64)
        ensures
            final(self)@ == delete_spec(old(self)@, id),
    {
        let ghost pred = |p: Prompt| p.id != id;
        let ghost s = self@;
        let mut kept: Vec<Prompt> = Vec::new();
        let mut rest: Vec<Prompt> = Vec::new();
        std::mem::swap(&mut rest, &mut self.data);
        let n: usize = rest.len();
        let mut i: usize = 0;
        while i < n
            invariant
                n == rest@.len(),
                rest@ == s,
                i <= n,
                pred == (|p: Prompt| p.id != id),
                kept@ == s.take(i as int).filter(pred),
            decreases n - i,
        {
            proof {
                reveal_with_fuel(Seq::<_>::filter, 1);
                assert(s.take(i + 1).drop_last() =~= s.take(i as int));
            }
            if rest[i].id != id {
                kept.push(rest[i].duplicate());
            }
            i = i + 1;
        }
        assert(s.take(i as int) =~= s);
        self.data = kept;
    }
}

} // verus!
