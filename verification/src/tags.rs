use vstd::prelude::*;
use crate::text::{split_trim_nonempty, spec_keyword_list, str_eq};

verus! {

/// One keyword tag.
#[derive(Debug)]
pub struct Tag {
    pub id: i64,
    pub name: String,
}

/// The many-to-many join between records and tags.
#[derive(Clone, Copy, Debug, PartialEq, Eq, Structural)]
pub struct MediaTagLink {
    pub media_id: i64,
    pub tag_id: i64,
}

pub open spec fn tag_name_present(tags: Seq<Tag>, name: Seq<char>) -> bool {
    exists|i: int| 0 <= i < tags.len() && tags[i].name@ == name
}

pub open spec fn link_present(links: Seq<MediaTagLink>, media_id: i64, tag_id: i64) -> bool {
    exists|i: int| 0 <= i < links.len() && links[i].media_id == media_id
        && links[i].tag_id == tag_id
}

/// A record carries a keyword: some tag has the keyword as its name, and a
/// link ties the record to it.
pub open spec fn keyword_attached(
    tags: Seq<Tag>, links: Seq<MediaTagLink>, media_id: i64, name: Seq<char>,
) -> bool {
    exists|i: int| 0 <= i < tags.len() && tags[i].name@ == name
        && link_present(links, media_id, tags[i].id)
}

/// The tag tables: named tags under unique ids, and the record-tag join,
/// with the uniqueness the schema enforces.
#[derive(Debug)]
pub struct TagStore {
    pub tags: Vec<Tag>,
    pub links: Vec<MediaTagLink>,
    pub next_tag_id: i64,
}

impl TagStore {
    pub open spec fn wf(&self) -> bool {
        &&& forall|i: int, j: int| 0 <= i < j < self.tags@.len()
            ==> self.tags@[i].id != self.tags@[j].id
        &&& forall|i: int, j: int| 0 <= i < j < self.tags@.len()
            ==> self.tags@[i].name@ != self.tags@[j].name@
        &&& forall|i: int| 0 <= i < self.tags@.len()
            ==> 0 < #[trigger] self.tags@[i].id < self.next_tag_id
        &&& forall|i: int, j: int| 0 <= i < j < self.links@.len()
            ==> self.links@[i] != self.links@[j]
        &&& 1 <= self.next_tag_id
    }

    pub fn new() -> (s: TagStore)
        ensures
            s.wf(),
            s.tags@.len() == 0,
            s.links@.len() == 0,
            s.next_tag_id == 1,
    {
        TagStore { tags: Vec::new(), links: Vec::new(), next_tag_id: 1 }
    }

    fn find_tag(&self, name: &str) -> (r: Option<usize>)
        ensures
            match r {
                Some(i) => i < self.tags@.len() && self.tags@[i as int].name@ == name@,
                None => !tag_name_present(self.tags@, name@),
            },
    {
        let mut i: usize = 0;
        while i < self.tags.len()
            invariant
                i <= self.tags@.len(),
                forall|j: int| 0 <= j < i ==> self.tags@[j].name@ != name@,
            decreases self.tags@.len() - i,
        {
            if str_eq(self.tags[i].name.as_str(), name) {
                return Some(i);
            }
            i = i + 1;
        }
        None
    }

    /// The id of the tag with this name, created now if it is new.
    fn ensure_tag(&mut self, name: &str) -> (tag_id: i64)
        requires
            old(self).wf(),
            old(self).next_tag_id < i64::MAX,
        ensures
            final(self).wf(),
            final(self).links == old(self).links,
            final(self).next_tag_id <= old(self).next_tag_id + 1,
            exists|i: int| 0 <= i < final(self).tags@.len()
                && final(self).tags@[i].name@ == name@
                && #[trigger] final(self).tags@[i].id == tag_id,
            final(self).tags@.len() >= old(self).tags@.len(),
            forall|i: int| 0 <= i < old(self).tags@.len()
                ==> #[trigger] final(self).tags@[i] == old(self).tags@[i],
    {
        match self.find_tag(name) {
            Some(i) => self.tags[i].id,
            None => {
                let id = self.next_tag_id;
                self.next_tag_id = self.next_tag_id + 1;
                self.tags.push(Tag { id, name: name.to_owned() });
                proof {
                    let pre = old(self).tags@;
                    let post = self.tags@;
                    assert(post[post.len() - 1].id == id);
                    assert forall|p: int, q: int| 0 <= p < q < post.len()
                        implies post[p].id != post[q].id
                            && post[p].name@ != post[q].name@ by {
                        if q == post.len() - 1 {
                            assert(pre[p].id < old(self).next_tag_id);
                            assert(pre[p].name@ != name@);
                        }
                    };
                }
                id
            }
        }
    }

    /// Tie a record to a tag unless the pair already exists.
    fn add_link(&mut self, media_id: i64, tag_id: i64)
        requires
            old(self).wf(),
        ensures
            final(self).wf(),
            final(self).tags == old(self).tags,
            final(self).next_tag_id == old(self).next_tag_id,
            link_present(final(self).links@, media_id, tag_id),
            forall|i: int| 0 <= i < old(self).links@.len()
                ==> #[trigger] final(self).links@[i] == old(self).links@[i],
            final(self).links@.len() >= old(self).links@.len(),
    {
        let mut i: usize = 0;
        while i < self.links.len()
            invariant
                *self == *old(self),
                old(self).wf(),
                i <= self.links@.len(),
                forall|j: int| 0 <= j < i ==> !(self.links@[j].media_id == media_id
                    && self.links@[j].tag_id == tag_id),
            decreases self.links@.len() - i,
        {
            if self.links[i].media_id == media_id && self.links[i].tag_id == tag_id {
                return;
            }
            i = i + 1;
        }
        let link = MediaTagLink { media_id, tag_id };
        self.links.push(link);
        proof {
            let pre = old(self).links@;
            let post = self.links@;
            assert(post[post.len() - 1] == link);
            assert forall|p: int, q: int| 0 <= p < q < post.len()
                implies post[p] != post[q] by {
                if q == post.len() - 1 {
                    assert(!(pre[p].media_id == media_id && pre[p].tag_id == tag_id));
                }
            };
        }
    }

    /// Merge a record's comma-separated keyword field into the tag tables,
    /// as the regeneration sweep does: each keyword gets a tag (created on
    /// first sight) and a link to the record; repeats are harmless. Returns
    /// how many keywords were merged.
    pub fn merge_keyword_tags(&mut self, media_id: i64, keywords: Option<&str>)
        -> (count: i64)
        requires
            old(self).wf(),
            old(self).next_tag_id <= i64::MAX - 0x10000,
            match keywords {
                Some(kw) => kw@.len() < 0x8000,
                None => true,
            },
        ensures
            final(self).wf(),
            count == (match keywords {
                Some(kw) => spec_keyword_list(kw@).len() as int,
                None => 0int,
            }),
            match keywords {
                Some(kw) => forall|t: int| 0 <= t < spec_keyword_list(kw@).len()
                    ==> keyword_attached(final(self).tags@, final(self).links@, media_id,
                        #[trigger] spec_keyword_list(kw@)[t]),
                None => *final(self) == *old(self),
            },
            forall|i: int| 0 <= i < old(self).links@.len()
                ==> #[trigger] final(self).links@[i] == old(self).links@[i],
    {
        let kw = match keywords {
            Some(kw) => kw,
            None => {
                return 0;
            }
        };
        let tokens = split_trim_nonempty(kw);
        let ghost toks = spec_keyword_list(kw@);
        proof {
            crate::tags::lemma_keyword_count(kw@);
        }
        let mut count: i64 = 0;
        let mut t: usize = 0;
        while t < tokens.len()
            invariant
                t <= tokens@.len(),
                tokens.deep_view() == toks,
                toks.len() < 0x8000 + 1,
                count == t,
                self.wf(),
                self.next_tag_id <= old(self).next_tag_id + t,
                old(self).next_tag_id <= i64::MAX - 0x10000,
                forall|j: int| 0 <= j < t ==> keyword_attached(self.tags@, self.links@,
                    media_id, #[trigger] toks[j]),
                self.links@.len() >= old(self).links@.len(),
                forall|i: int| 0 <= i < old(self).links@.len()
                    ==> #[trigger] self.links@[i] == old(self).links@[i],
            decreases tokens@.len() - t,
        {
            let ghost tags_before = self.tags@;
            let ghost links_before = self.links@;
            let tag_id = self.ensure_tag(tokens[t].as_str());
            let ghost tags_mid = self.tags@;
            self.add_link(media_id, tag_id);
            proof {
                assert(tokens@[t as int]@ == toks[t as int]);
                let i = choose|i: int| 0 <= i < tags_mid.len()
                    && tags_mid[i].name@ == toks[t as int]
                    && #[trigger] tags_mid[i].id == tag_id;
                assert(self.tags@[i] == tags_mid[i]);
                assert(keyword_attached(self.tags@, self.links@, media_id,
                    toks[t as int]));
                assert forall|j: int| 0 <= j < t + 1
                    implies keyword_attached(self.tags@, self.links@, media_id,
                        #[trigger] toks[j]) by {
                    if j < t {
                        let x = choose|x: int| 0 <= x < tags_before.len()
                            && tags_before[x].name@ == toks[j]
                            && link_present(links_before, media_id, tags_before[x].id);
                        assert(self.tags@[x] == tags_before[x]);
                        let y = choose|y: int| 0 <= y < links_before.len()
                            && links_before[y].media_id == media_id
                            && links_before[y].tag_id == tags_before[x].id;
                        assert(self.links@[y] == links_before[y]);
                        assert(link_present(self.links@, media_id, self.tags@[x].id));
                    }
                };
                assert forall|i: int| 0 <= i < old(self).links@.len()
                    implies #[trigger] self.links@[i] == old(self).links@[i] by {
                    assert(self.links@[i] == links_before[i]);
                };
            }
            count = count + 1;
            t = t + 1;
        }
        count
    }
}

/// A keyword field shorter than the bound splits into fewer tokens than the
/// bound: splitting never multiplies.
pub proof fn lemma_keyword_count(s: Seq<char>)
    ensures
        spec_keyword_list(s).len() <= s.len() + 1,
{
    lemma_raw_token_count(s);
    crate::text::spec_raw_tokens(s).map_values(|t: Seq<char>| crate::text::spec_trim(t))
        .filter_lemma(|t: Seq<char>| t.len() > 0);
}

proof fn lemma_raw_tokens_nonempty(s: Seq<char>)
    ensures
        crate::text::spec_raw_tokens(s).len() >= 1,
    decreases s.len(),
{
    if s.len() > 0 {
        lemma_raw_tokens_nonempty(s.drop_last());
    }
}

proof fn lemma_raw_token_count(s: Seq<char>)
    ensures
        crate::text::spec_raw_tokens(s).len() <= s.len() + 1,
    decreases s.len(),
{
    if s.len() > 0 {
        lemma_raw_token_count(s.drop_last());
        lemma_raw_tokens_nonempty(s.drop_last());
    }
}

} // verus!
