//! Resolution of a tag name to the provider's tag id, with a permanent cache in
//! the state store.
use vstd::prelude::*;
use crate::text::{eq_ignoring_ascii_case, joined, same_ignoring_ascii_case};

verus! {

/// The state key under which a tag's resolved id is cached.
pub open spec fn tag_cache_key_of(name: Seq<char>) -> Seq<char> {
    "pocket.tag_id."@ + name
}

pub fn tag_cache_key(name: &str) -> (r: String)
    ensures
        r@ == tag_cache_key_of(name@),
{
    joined("pocket.tag_id.", name)
}

/// One tag of the provider's tag list; either field may be absent.
#[derive(Debug, Clone)]
pub struct TagEntry {
    pub name: Option<String>,
    pub id: Option<String>,
}

/// The name of a tag as compared: an absent name compares as empty.
pub open spec fn tag_name_of(t: TagEntry) -> Seq<char> {
    match t.name {
        Some(n) => n@,
        None => Seq::empty(),
    }
}

pub open spec fn names_tag(t: TagEntry, name: Seq<char>) -> bool {
    eq_ignoring_ascii_case(tag_name_of(t), name)
}

/// Index of the first tag whose name equals `name` up to ASCII case.
pub open spec fn first_match(tags: Seq<TagEntry>, name: Seq<char>) -> Option<int> {
    if exists|i: int| 0 <= i < tags.len() && names_tag(#[trigger] tags[i], name) {
        let i = choose|i: int|
            0 <= i < tags.len() && names_tag(#[trigger] tags[i], name) && forall|j: int|
                0 <= j < i ==> !names_tag(#[trigger] tags[j], name);
        Some(i)
    } else {
        None
    }
}

/// The names of the tags that have one, in order.
pub open spec fn named_upto(tags: Seq<TagEntry>, n: nat) -> Seq<Seq<char>>
    decreases n,
{
    if n == 0 {
        Seq::empty()
    } else {
        let s = named_upto(tags, (n - 1) as nat);
        match tags[n - 1].name {
            Some(t) => s.push(t@),
            None => s,
        }
    }
}

/// What a resolution does after reading the cache: use the cached id, or list
/// the provider's tags.
pub enum CacheStep {
    UseCached(Seq<char>),
    ListTags,
}

pub open spec fn cache_read_step(cached: Option<Seq<char>>) -> CacheStep {
    match cached {
        Some(v) => CacheStep::UseCached(v),
        None => CacheStep::ListTags,
    }
}

/// A state store's answer for `key`.
pub open spec fn stored_value(store: Map<Seq<char>, Seq<char>>, key: Seq<char>) -> Option<Seq<char>> {
    if store.dom().contains(key) {
        Some(store[key])
    } else {
        None
    }
}

/// A resolution writes the id it found under the tag's cache key before it
/// resolves; a later resolution of the same name against that store reads the
/// id back and resolves to it without listing the tags. So the tag list is
/// requested at most once per name and store.
pub proof fn lemma_tag_cache_hit(store: Map<Seq<char>, Seq<char>>, name: Seq<char>, id: Seq<char>)
    ensures
        cache_read_step(stored_value(store.insert(tag_cache_key_of(name), id), tag_cache_key_of(name)))
            == CacheStep::UseCached(id),
{
}

#[derive(Debug)]
pub enum TagAction {
    ReadState { key: String },
    /// Request the provider's full tag list.
    FetchTags,
    WriteState { key: String, value: String },
    Resolved { id: String },
    /// No tag has that name; the names that exist, in list order.
    NotFound { available: Vec<String> },
    /// The tag exists but carries no id.
    MissingId,
    Unexpected,
}

#[derive(Debug)]
pub enum TagEvent {
    Begin,
    StateValue { value: Option<String> },
    Tags { tags: Vec<TagEntry> },
    StateWritten,
}

#[derive(Debug, Clone, Copy, PartialEq, Eq, Structural)]
pub enum TagPhase {
    Start,
    AwaitCache,
    AwaitTags,
    AwaitWrite,
    Done,
}

/// One resolution of one tag name.
pub struct TagResolver {
    pub name: String,
    pub found: String,
    pub phase: TagPhase,
}

fn find_tag(tags: &Vec<TagEntry>, name: &str) -> (r: Option<usize>)
    ensures
        match r {
            Some(i) => first_match(tags@, name@) == Some(i as int) && i < tags@.len(),
            None => first_match(tags@, name@) is None,
        },
{
    let mut i: usize = 0;
    while i < tags.len()
        invariant
            i <= tags.len(),
            forall|j: int| 0 <= j < i ==> !names_tag(#[trigger] tags@[j], name@),
        decreases tags.len() - i,
    {
        let hit = match &tags[i].name {
            Some(n) => same_ignoring_ascii_case(n.as_str(), name),
            None => {
                proof {
                    reveal_strlit("");
                }
                same_ignoring_ascii_case("", name)
            },
        };
        if hit {
            assert(names_tag(tags@[i as int], name@));
            let ghost k = choose|k: int|
                0 <= k < tags@.len() && names_tag(#[trigger] tags@[k], name@) && forall|j: int|
                    0 <= j < k ==> !names_tag(#[trigger] tags@[j], name@);
            assert(k == i) by {
                if k < i {
                } else if k > i {
                }
            }
            return Some(i);
        }
        i = i + 1;
    }
    None
}

fn available_names(tags: &Vec<TagEntry>) -> (r: Vec<String>)
    ensures
        r@.map_values(|s: String| s@) == named_upto(tags@, tags@.len()),
{
    let mut r: Vec<String> = Vec::new();
    let mut i: usize = 0;
    while i < tags.len()
        invariant
            i <= tags.len(),
            r@.map_values(|s: String| s@) == named_upto(tags@, i as nat),
        decreases tags.len() - i,
    {
        match &tags[i].name {
            Some(n) => {
                let ghost before = r@;
                r.push(n.clone());
                assert(r@.map_values(|s: String| s@) =~= before.map_values(|s: String| s@).push(n@));
            },
            None => {},
        }
        i = i + 1;
    }
    r
}

impl TagResolver {
    pub fn new(name: &str) -> (r: TagResolver)
        ensures
            r.name@ == name@,
            r.phase is Start,
    {
        TagResolver { name: String::from_str(name), found: String::new(), phase: TagPhase::Start }
    }

    pub open spec fn accepts(&self, e: TagEvent) -> bool {
        match self.phase {
            TagPhase::Start => e is Begin,
            TagPhase::AwaitCache => e is StateValue,
            TagPhase::AwaitTags => e is Tags,
            TagPhase::AwaitWrite => e is StateWritten,
            TagPhase::Done => false,
        }
    }

    /// Take the event that the last action produced; return the next action.
    pub fn step(&mut self, event: TagEvent) -> (a: TagAction)
        ensures
            final(self).name == old(self).name,
            (a is Unexpected) == !old(self).accepts(event),
            a is Unexpected ==> *final(self) == *old(self),
            old(self).phase is Start && event is Begin ==> final(self).phase is AwaitCache
                && final(self).found == old(self).found && (a matches TagAction::ReadState { key } && key@
                == tag_cache_key_of(old(self).name@)),
            // a cached id is used as it is; only a miss lists the tags
            old(self).phase is AwaitCache ==> (event matches TagEvent::StateValue { value } ==> match
                cache_read_step(
                match value {
                    Some(v) => Some(v@),
                    None => None,
                },
            ) {
                CacheStep::UseCached(v) => final(self).phase is Done && (a matches TagAction::Resolved { id }
                    && id@ == v),
                CacheStep::ListTags => final(self).phase is AwaitTags && final(self).found == old(self).found
                    && a is FetchTags,
            }),
            // the first tag of that name decides
            old(self).phase is AwaitTags ==> (event matches TagEvent::Tags { tags } ==> match first_match(
                tags@,
                old(self).name@,
            ) {
                Some(i) => match tags@[i].id {
                    Some(id) => final(self).phase is AwaitWrite && final(self).found@ == id@
                        && (a matches TagAction::WriteState { key, value } && key@ == tag_cache_key_of(
                        old(self).name@,
                    ) && value@ == id@),
                    None => final(self).phase is Done && a is MissingId,
                },
                None => final(self).phase is Done && (a matches TagAction::NotFound { available }
                    && available@.map_values(|s: String| s@) == named_upto(tags@, tags@.len())),
            }),
            // the id is cached before it is used: the resolution returns what it wrote
            old(self).phase is AwaitWrite && event is StateWritten ==> final(self).phase is Done
                && final(self).found == old(self).found && (a matches TagAction::Resolved { id }
                && id@ == old(self).found@),
    {
        match (self.phase, event) {
            (TagPhase::Start, TagEvent::Begin) => {
                self.phase = TagPhase::AwaitCache;
                TagAction::ReadState { key: tag_cache_key(self.name.as_str()) }
            },
            (TagPhase::AwaitCache, TagEvent::StateValue { value }) => match value {
                Some(v) => {
                    self.phase = TagPhase::Done;
                    TagAction::Resolved { id: v }
                },
                None => {
                    self.phase = TagPhase::AwaitTags;
                    TagAction::FetchTags
                },
            },
            (TagPhase::AwaitTags, TagEvent::Tags { tags }) => match find_tag(&tags, self.name.as_str()) {
                Some(i) => match &tags[i].id {
                    Some(id) => {
                        self.found = id.clone();
                        self.phase = TagPhase::AwaitWrite;
                        TagAction::WriteState { key: tag_cache_key(self.name.as_str()), value: id.clone() }
                    },
                    None => {
                        self.phase = TagPhase::Done;
                        TagAction::MissingId
                    },
                },
                None => {
                    self.phase = TagPhase::Done;
                    TagAction::NotFound { available: available_names(&tags) }
                },
            },
            (TagPhase::AwaitWrite, TagEvent::StateWritten) => {
                self.phase = TagPhase::Done;
                TagAction::Resolved { id: self.found.clone() }
            },
            (_, ev) => {
                assert(!old(self).accepts(ev));
                TagAction::Unexpected
            },
        }
    }
}

} // verus!
