//! The filter conditions of search and list queries, as numbered SQL fragments
//! with their parameters.
use vstd::prelude::*;
use crate::display::{decimal_of, decimal_text};
use crate::text::joined;

verus! {

/// Filters that can be applied to search and list queries.
#[derive(Debug, Clone, Default)]
pub struct Filters {
    pub speaker: Option<String>,
    pub source: Option<String>,
    pub from_date: Option<String>,
    pub to_date: Option<String>,
    pub tag: Option<String>,
}

/// One condition before numbering: the text before and after its placeholder,
/// and the value bound to it.
pub open spec fn slot(before: Seq<char>, after: Seq<char>, value: Seq<char>) -> Seq<(Seq<char>, Seq<char>, Seq<char>)> {
    seq![(before, after, value)]
}

pub open spec fn opt_slot(v: Option<String>, before: Seq<char>, after: Seq<char>) -> Seq<(Seq<char>, Seq<char>, Seq<char>)> {
    match v {
        Some(t) => slot(before, after, t@),
        None => Seq::empty(),
    }
}

/// The conditions of the present filters, in the order source, from, to,
/// speaker (a partial match), tag.
pub open spec fn filter_slots(f: Filters) -> Seq<(Seq<char>, Seq<char>, Seq<char>)> {
    opt_slot(f.source, "t.source = "@, ""@) + opt_slot(f.from_date, "t.date >= "@, ""@) + opt_slot(
        f.to_date,
        "t.date <= "@,
        ""@,
    ) + match f.speaker {
        Some(t) => slot(
            "t.id IN (SELECT transcript_id FROM speakers WHERE name LIKE "@,
            ")"@,
            "%"@ + t@ + "%"@,
        ),
        None => Seq::empty(),
    } + opt_slot(f.tag, "t.id IN (SELECT transcript_id FROM tags WHERE tag = "@, ")"@)
}

/// The numbered text of the condition in position `i`.
pub open spec fn condition_text(s: (Seq<char>, Seq<char>, Seq<char>), i: int) -> Seq<char> {
    s.0 + "?"@ + decimal_of((i + 1) as nat) + s.1
}

pub open spec fn built(conds: Seq<String>, params: Seq<String>, slots: Seq<(Seq<char>, Seq<char>, Seq<char>)>) -> bool {
    &&& conds.len() == slots.len()
    &&& params.len() == slots.len()
    &&& forall|i: int| 0 <= i < slots.len() ==> (#[trigger] conds[i])@ == condition_text(slots[i], i)
    &&& forall|i: int| 0 <= i < slots.len() ==> (#[trigger] params[i])@ == slots[i].2
}

fn push_slot(
    conds: &mut Vec<String>,
    params: &mut Vec<String>,
    before: &str,
    after: &str,
    value: String,
    Ghost(slots): Ghost<Seq<(Seq<char>, Seq<char>, Seq<char>)>>,
)
    requires
        built(old(conds)@, old(params)@, slots),
        old(params).len() < 1000,
    ensures
        built(final(conds)@, final(params)@, slots + slot(before@, after@, value@)),
        final(params).len() == old(params).len() + 1,
{
    let n = (params.len() + 1) as u64;
    let c = joined(joined(joined(before, "?").as_str(), decimal_text(n).as_str()).as_str(), after);
    conds.push(c);
    params.push(value);
    proof {
        let all = slots + slot(before@, after@, value@);
        assert forall|i: int| 0 <= i < all.len() implies (#[trigger] conds@[i])@ == condition_text(all[i], i) by {
            if i < slots.len() {
                assert(all[i] == slots[i]);
            }
        }
        assert forall|i: int| 0 <= i < all.len() implies (#[trigger] params@[i])@ == all[i].2 by {
            if i < slots.len() {
                assert(all[i] == slots[i]);
            }
        }
    }
}

impl Filters {
    /// Conditions to AND together, each with one numbered placeholder, and the
    /// values bound to them, in the same order.
    pub fn transcript_conditions(&self) -> (r: (Vec<String>, Vec<String>))
        ensures
            built(r.0@, r.1@, filter_slots(*self)),
    {
        let mut conds: Vec<String> = Vec::new();
        let mut params: Vec<String> = Vec::new();
        let ghost mut slots: Seq<(Seq<char>, Seq<char>, Seq<char>)> = Seq::empty();
        proof {
            reveal_strlit("");
        }
        match &self.source {
            Some(v) => {
                push_slot(&mut conds, &mut params, "t.source = ", "", v.clone(), Ghost(slots));
                proof { slots = slots + slot("t.source = "@, ""@, v@); }
            },
            None => {},
        }
        assert(slots =~= opt_slot(self.source, "t.source = "@, ""@));
        let ghost s1 = slots;
        match &self.from_date {
            Some(v) => {
                push_slot(&mut conds, &mut params, "t.date >= ", "", v.clone(), Ghost(slots));
                proof { slots = slots + slot("t.date >= "@, ""@, v@); }
            },
            None => {},
        }
        assert(slots =~= s1 + opt_slot(self.from_date, "t.date >= "@, ""@));
        let ghost s2 = slots;
        match &self.to_date {
            Some(v) => {
                push_slot(&mut conds, &mut params, "t.date <= ", "", v.clone(), Ghost(slots));
                proof { slots = slots + slot("t.date <= "@, ""@, v@); }
            },
            None => {},
        }
        assert(slots =~= s2 + opt_slot(self.to_date, "t.date <= "@, ""@));
        let ghost s3 = slots;
        match &self.speaker {
            Some(v) => {
                let pattern = joined(joined("%", v.as_str()).as_str(), "%");
                push_slot(
                    &mut conds,
                    &mut params,
                    "t.id IN (SELECT transcript_id FROM speakers WHERE name LIKE ",
                    ")",
                    pattern,
                    Ghost(slots),
                );
                proof {
                    slots = slots + slot(
                        "t.id IN (SELECT transcript_id FROM speakers WHERE name LIKE "@,
                        ")"@,
                        "%"@ + v@ + "%"@,
                    );
                }
            },
            None => {},
        }
        let ghost s4 = slots;
        match &self.tag {
            Some(v) => {
                push_slot(
                    &mut conds,
                    &mut params,
                    "t.id IN (SELECT transcript_id FROM tags WHERE tag = ",
                    ")",
                    v.clone(),
                    Ghost(slots),
                );
                proof { slots = slots + slot("t.id IN (SELECT transcript_id FROM tags WHERE tag = "@, ")"@, v@); }
            },
            None => {},
        }
        assert(slots =~= s4 + opt_slot(self.tag, "t.id IN (SELECT transcript_id FROM tags WHERE tag = "@, ")"@));
        assert(slots =~= filter_slots(*self));
        (conds, params)
    }
}

} // verus!
