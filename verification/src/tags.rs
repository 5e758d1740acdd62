//! The tag index: for every tag, the entries that carry it.

use vstd::prelude::*;
use crate::entry::{PageData, PageDataView};
use crate::text::{
    compare,
    lemma_less_irreflexive,
    lemma_less_transitive,
    text_less,
    TextOrder,
};

verus! {

/// A reference from a tag to an entry that carries it.
#[derive(Debug)]
pub struct TagData {
    pub url: String,
    pub title: String,
    pub tag: String,
}

/// A `TagData` as a mathematical value.
pub struct TagDataView {
    pub url: Seq<char>,
    pub title: Seq<char>,
    pub tag: Seq<char>,
}

impl DeepView for TagData {
    type V = TagDataView;

    open spec fn deep_view(&self) -> TagDataView {
        TagDataView { url: self.url@, title: self.title@, tag: self.tag@ }
    }
}

/// A tag and the references to the entries that carry it.
#[derive(Debug)]
pub struct TagGroup {
    pub tag: String,
    pub entries: Vec<TagData>,
}

/// A `TagGroup` as a mathematical value.
pub struct TagGroupView {
    pub tag: Seq<char>,
    pub entries: Seq<TagDataView>,
}

impl DeepView for TagGroup {
    type V = TagGroupView;

    open spec fn deep_view(&self) -> TagGroupView {
        TagGroupView { tag: self.tag@, entries: self.entries.deep_view() }
    }
}

/// The references that one entry gives: one for each of its tags, in the
/// order of the tags.
pub open spec fn refs_of(e: PageDataView) -> Seq<TagDataView> {
    match e.tags {
        Some(tags) => Seq::new(
            tags.len(),
            |k: int| TagDataView { url: e.url, title: e.title, tag: tags[k] },
        ),
        None => Seq::empty(),
    }
}

/// The references that the entries give, entry by entry.
pub open spec fn all_refs(entries: Seq<PageDataView>) -> Seq<TagDataView>
    decreases entries.len(),
{
    if entries.len() == 0 {
        Seq::empty()
    } else {
        all_refs(entries.drop_last()) + refs_of(entries.last())
    }
}

/// The test that picks the references of one tag.
pub open spec fn tagged(tag: Seq<char>) -> spec_fn(TagDataView) -> bool {
    |r: TagDataView| r.tag == tag
}

/// Whether one of the groups is that of `tag`.
pub open spec fn has_group(groups: Seq<TagGroupView>, tag: Seq<char>) -> bool {
    exists|i: int| 0 <= i < groups.len() && (#[trigger] groups[i]).tag == tag
}

/// Whether `groups` is the index of the references `refs`: the tags stand
/// in ascending order, each once; each group holds the references of its
/// tag, all of them, in the order of `refs`, and at least one; and no
/// reference is left without a group.
pub open spec fn is_tag_index(groups: Seq<TagGroupView>, refs: Seq<TagDataView>) -> bool {
    &&& forall|i: int, j: int|
        0 <= i < j < groups.len() ==> text_less(
            (#[trigger] groups[i]).tag,
            (#[trigger] groups[j]).tag,
        )
    &&& forall|i: int|
        0 <= i < groups.len() ==> (#[trigger] groups[i]).entries.len() > 0 && groups[i].entries
            == refs.filter(tagged(groups[i].tag))
    &&& forall|k: int| 0 <= k < refs.len() ==> has_group(groups, (#[trigger] refs[k]).tag)
}

/// The reference that joins the index does so under its own tag, behind
/// the references that are there; the other groups stay as they are.
proof fn lemma_filter_with(refs: Seq<TagDataView>, r: TagDataView, tag: Seq<char>)
    ensures
        refs.push(r).filter(tagged(tag)) == if r.tag == tag {
            refs.filter(tagged(tag)).push(r)
        } else {
            refs.filter(tagged(tag))
        },
{
    refs.lemma_filter_push(r, tagged(tag));
}

/// A tag that no group has is the tag of no reference.
proof fn lemma_new_tag(groups: Seq<TagGroupView>, refs: Seq<TagDataView>, tag: Seq<char>)
    requires
        is_tag_index(groups, refs),
        forall|i: int| 0 <= i < groups.len() ==> (#[trigger] groups[i]).tag != tag,
    ensures
        refs.filter(tagged(tag)) == Seq::<TagDataView>::empty(),
{
    let p = tagged(tag);
    assert(refs.all(|x: TagDataView| !p(x))) by {
        assert forall|k: int| 0 <= k < refs.len() implies !p(#[trigger] refs[k]) by {
            assert(has_group(groups, refs[k].tag));
            let i = choose|i: int|
                0 <= i < groups.len() && (#[trigger] groups[i]).tag == refs[k].tag;
            assert(groups[i].tag != tag);
        }
    }
    refs.lemma_all_neg_filter_empty(p);
    assert(refs.filter(p).len() == 0);
}

/// The tag of every group of an index is the tag of a reference, and so
/// has a group in every index of the same references.
proof fn lemma_key_is_shared(
    g: Seq<TagGroupView>,
    h: Seq<TagGroupView>,
    refs: Seq<TagDataView>,
    i: int,
)
    requires
        is_tag_index(g, refs),
        is_tag_index(h, refs),
        0 <= i < g.len(),
    ensures
        has_group(h, g[i].tag),
{
    let p = tagged(g[i].tag);
    let first = g[i].entries[0];
    assert(g[i].entries == refs.filter(p));
    refs.lemma_filter_pred(p, 0);
    assert(refs.filter(p).contains(first));
    refs.lemma_filter_contains_rev(p, first);
    let k = choose|k: int| 0 <= k < refs.len() && refs[k] == first;
    assert(has_group(h, refs[k].tag));
}

/// Two indexes of the same references have the same tags at the same
/// places, as far as both reach.
proof fn lemma_tags_agree(
    g: Seq<TagGroupView>,
    h: Seq<TagGroupView>,
    refs: Seq<TagDataView>,
    n: int,
)
    requires
        is_tag_index(g, refs),
        is_tag_index(h, refs),
        0 <= n <= g.len(),
        n <= h.len(),
    ensures
        forall|j: int| 0 <= j < n ==> (#[trigger] g[j]).tag == h[j].tag,
    decreases n,
{
    if n > 0 {
        lemma_tags_agree(g, h, refs, n - 1);
        let i = n - 1;
        lemma_key_is_shared(g, h, refs, i);
        lemma_key_is_shared(h, g, refs, i);
        let k = choose|k: int| 0 <= k < h.len() && (#[trigger] h[k]).tag == g[i].tag;
        let m = choose|m: int| 0 <= m < g.len() && (#[trigger] g[m]).tag == h[i].tag;
        lemma_less_irreflexive(g[i].tag, 0);
        lemma_less_irreflexive(h[i].tag, 0);
        if k < i {
            assert(g[k].tag == h[k].tag);
            assert(text_less(g[k].tag, g[i].tag));
        }
        if m < i {
            assert(g[m].tag == h[m].tag);
            assert(text_less(h[m].tag, h[i].tag));
        }
        if k > i && m > i {
            assert(text_less(h[i].tag, h[k].tag));
            assert(text_less(g[i].tag, g[m].tag));
            lemma_less_transitive(g[i].tag, h[i].tag, g[i].tag, 0);
        }
    }
}

/// The references have one index only: two indexes of the same references
/// are the same.
pub proof fn lemma_tag_index_unique(
    g: Seq<TagGroupView>,
    h: Seq<TagGroupView>,
    refs: Seq<TagDataView>,
)
    requires
        is_tag_index(g, refs),
        is_tag_index(h, refs),
    ensures
        g == h,
{
    if g.len() < h.len() {
        let n = g.len() as int;
        lemma_tags_agree(g, h, refs, n);
        lemma_key_is_shared(h, g, refs, n);
        let m = choose|m: int| 0 <= m < g.len() && (#[trigger] g[m]).tag == h[n].tag;
        assert(g[m].tag == h[m].tag);
        assert(text_less(h[m].tag, h[n].tag));
        lemma_less_irreflexive(h[n].tag, 0);
    } else if h.len() < g.len() {
        let n = h.len() as int;
        lemma_tags_agree(g, h, refs, n);
        lemma_key_is_shared(g, h, refs, n);
        let k = choose|k: int| 0 <= k < h.len() && (#[trigger] h[k]).tag == g[n].tag;
        assert(g[k].tag == h[k].tag);
        assert(text_less(g[k].tag, g[n].tag));
        lemma_less_irreflexive(g[n].tag, 0);
    } else {
        lemma_tags_agree(g, h, refs, g.len() as int);
        assert forall|i: int| 0 <= i < g.len() implies g[i] == h[i] by {
            assert(g[i].tag == h[i].tag);
            assert(g[i].entries == refs.filter(tagged(g[i].tag)));
            assert(h[i].entries == refs.filter(tagged(h[i].tag)));
        }
        assert(g =~= h);
    }
}

/// Where a tag belongs among the groups: behind the groups whose tags come
/// before it.
fn place_of(groups: &Vec<TagGroup>, tag: &str) -> (r: (usize, bool))
    requires
        forall|i: int, j: int|
            0 <= i < j < groups.len() ==> text_less(
                (#[trigger] groups@[i]).tag@,
                (#[trigger] groups@[j]).tag@,
            ),
    ensures
        r.0 <= groups.len(),
        forall|i: int| 0 <= i < r.0 ==> text_less((#[trigger] groups@[i]).tag@, tag@),
        r.1 ==> r.0 < groups.len() && groups@[r.0 as int].tag@ == tag@,
        !r.1 ==> forall|i: int|
            r.0 <= i < groups.len() ==> text_less(tag@, (#[trigger] groups@[i]).tag@),
{
    let mut p: usize = 0;
    while p < groups.len()
        invariant
            p <= groups.len(),
            forall|i: int| 0 <= i < p ==> text_less((#[trigger] groups@[i]).tag@, tag@),
            forall|i: int, j: int|
                0 <= i < j < groups.len() ==> text_less(
                    (#[trigger] groups@[i]).tag@,
                    (#[trigger] groups@[j]).tag@,
                ),
        decreases groups.len() - p,
    {
        match compare(groups[p].tag.as_str(), tag) {
            TextOrder::Before => {
                p += 1;
            },
            TextOrder::Same => {
                return (p, true);
            },
            TextOrder::After => {
                assert forall|i: int| p <= i < groups.len() implies text_less(
                    tag@,
                    (#[trigger] groups@[i]).tag@,
                ) by {
                    if i > p {
                        lemma_less_transitive(tag@, groups@[p as int].tag@, groups@[i].tag@, 0);
                    }
                }
                return (p, false);
            },
        }
    }
    (p, false)
}

/// Takes one more reference into the index.
fn add_ref(groups: &mut Vec<TagGroup>, r: TagData, Ghost(refs): Ghost<Seq<TagDataView>>)
    requires
        is_tag_index(old(groups).deep_view(), refs),
    ensures
        is_tag_index(final(groups).deep_view(), refs.push(r.deep_view())),
{
    let ghost before = groups.deep_view();
    let ghost rv = r.deep_view();
    assert forall|i: int, j: int| 0 <= i < j < groups.len() implies text_less(
        (#[trigger] groups@[i]).tag@,
        (#[trigger] groups@[j]).tag@,
    ) by {
        assert(before[i].tag == groups@[i].tag@);
        assert(before[j].tag == groups@[j].tag@);
    }
    let (p, found) = place_of(groups, r.tag.as_str());
    if found {
        let mut g = groups.remove(p);
        let ghost old_entries = g.entries.deep_view();
        assert(g.deep_view() == before[p as int]);
        g.entries.push(r);
        assert(g.entries.deep_view() == old_entries.push(rv));
        groups.insert(p, g);
        proof {
            let after = groups.deep_view();
            assert(after.len() == before.len());
            assert forall|i: int| 0 <= i < after.len() implies (#[trigger] after[i]).tag
                == before[i].tag by {}
            assert forall|i: int| 0 <= i < after.len() implies (#[trigger] after[i]).entries.len()
                > 0 && after[i].entries == refs.push(rv).filter(tagged(after[i].tag)) by {
                lemma_filter_with(refs, rv, after[i].tag);
                if i != p {
                    assert(after[i] == before[i]);
                    if i < p {
                        assert(text_less(before[i].tag, before[p as int].tag));
                    } else {
                        assert(text_less(before[p as int].tag, before[i].tag));
                    }
                    lemma_less_irreflexive(rv.tag, 0);
                }
            }
            assert forall|k: int| 0 <= k < refs.push(rv).len() implies has_group(
                after,
                (#[trigger] refs.push(rv)[k]).tag,
            ) by {
                if k < refs.len() {
                    assert(has_group(before, refs[k].tag));
                    let i = choose|i: int|
                        0 <= i < before.len() && (#[trigger] before[i]).tag == refs[k].tag;
                    assert(after[i].tag == refs.push(rv)[k].tag);
                } else {
                    assert(after[p as int].tag == rv.tag);
                }
            }
            assert forall|i: int, j: int| 0 <= i < j < after.len() implies text_less(
                (#[trigger] after[i]).tag,
                (#[trigger] after[j]).tag,
            ) by {
                assert(text_less(before[i].tag, before[j].tag));
            }
        }
    } else {
        let tag = r.tag.clone();
        let mut entries: Vec<TagData> = Vec::new();
        entries.push(r);
        assert(entries.deep_view() == seq![rv]);
        let g = TagGroup { tag, entries };
        groups.insert(p, g);
        proof {
            let after = groups.deep_view();
            assert(after == before.insert(p as int, g.deep_view()));
            assert forall|i: int| 0 <= i < before.len() implies (#[trigger] before[i]).tag
                != rv.tag by {
                assert(before[i].tag == old(groups)@[i].tag@);
                lemma_less_irreflexive(rv.tag, 0);
            }
            lemma_new_tag(before, refs, rv.tag);
            assert forall|i: int| 0 <= i < after.len() implies (#[trigger] after[i]).entries.len()
                > 0 && after[i].entries == refs.push(rv).filter(tagged(after[i].tag)) by {
                lemma_filter_with(refs, rv, after[i].tag);
                if i < p {
                    assert(after[i] == before[i]);
                } else if i > p {
                    assert(after[i] == before[i - 1]);
                } else {
                    assert(Seq::<TagDataView>::empty().push(rv) == seq![rv]);
                }
            }
            assert forall|k: int| 0 <= k < refs.push(rv).len() implies has_group(
                after,
                (#[trigger] refs.push(rv)[k]).tag,
            ) by {
                if k < refs.len() {
                    assert(has_group(before, refs[k].tag));
                    let i = choose|i: int|
                        0 <= i < before.len() && (#[trigger] before[i]).tag == refs[k].tag;
                    if i < p {
                        assert(after[i].tag == refs.push(rv)[k].tag);
                    } else {
                        assert(after[i + 1] == before[i]);
                        assert(after[i + 1].tag == refs.push(rv)[k].tag);
                    }
                } else {
                    assert(after[p as int].tag == rv.tag);
                }
            }
            assert forall|i: int, j: int| 0 <= i < j < after.len() implies text_less(
                (#[trigger] after[i]).tag,
                (#[trigger] after[j]).tag,
            ) by {
                if j < p {
                    assert(after[i] == before[i] && after[j] == before[j]);
                } else if j == p {
                    assert(after[i] == before[i]);
                    assert(before[i].tag == old(groups)@[i].tag@);
                } else if i < p {
                    assert(after[i] == before[i] && after[j] == before[j - 1]);
                } else if i == p {
                    assert(after[j] == before[j - 1]);
                    assert(before[j - 1].tag == old(groups)@[j - 1].tag@);
                } else {
                    assert(after[i] == before[i - 1] && after[j] == before[j - 1]);
                }
            }
        }
    }
}

/// Builds the tag index of the entries: every tag of every entry gives one
/// reference, under its tag; the tags stand in ascending order.
pub fn tag_index(entries: &Vec<PageData>) -> (groups: Vec<TagGroup>)
    ensures
        is_tag_index(groups.deep_view(), all_refs(entries.deep_view())),
{
    let mut groups: Vec<TagGroup> = Vec::new();
    let mut i: usize = 0;
    assert(all_refs(entries.deep_view().take(0)) == Seq::<TagDataView>::empty());
    while i < entries.len()
        invariant
            i <= entries.len(),
            is_tag_index(groups.deep_view(), all_refs(entries.deep_view().take(i as int))),
        decreases entries.len() - i,
    {
        let entry = &entries[i];
        let ghost ev = entry.deep_view();
        let ghost done = all_refs(entries.deep_view().take(i as int));
        proof {
            assert(entries.deep_view().take(i + 1).drop_last() == entries.deep_view().take(
                i as int,
            ));
            assert(entries.deep_view().take(i + 1).last() == ev);
        }
        match &entry.tags {
            None => {
                assert(done + refs_of(ev) == done);
            },
            Some(tags) => {
                let mut k: usize = 0;
                assert(done + refs_of(ev).take(0) == done);
                while k < tags.len()
                    invariant
                        k <= tags.len(),
                        ev == entry.deep_view(),
                        entry.tags == Some(*tags),
                        is_tag_index(groups.deep_view(), done + refs_of(ev).take(k as int)),
                    decreases tags.len() - k,
                {
                    let r = TagData {
                        url: entry.url.clone(),
                        title: entry.title.clone(),
                        tag: tags[k].clone(),
                    };
                    proof {
                        assert(refs_of(ev).len() == tags.len());
                        assert(refs_of(ev)[k as int] == r.deep_view());
                        assert(done + refs_of(ev).take(k + 1) == (done + refs_of(ev).take(
                            k as int,
                        )).push(r.deep_view()));
                    }
                    add_ref(&mut groups, r, Ghost(done + refs_of(ev).take(k as int)));
                    k += 1;
                }
                assert(refs_of(ev).take(tags.len() as int) == refs_of(ev));
            },
        }
        i += 1;
    }
    assert(entries.deep_view().take(entries.len() as int) == entries.deep_view());
    groups
}

} // verus!
