use vstd::prelude::*;
use crate::predicate::{
    has_anchor,
    has_anchor_exec,
    has_tag,
    has_tag_exec,
    starts_with_checkbox,
    starts_with_checkbox_exec,
};
use crate::text::{chars_of, contains, contains_exec, lower_chars_of, lower_of, split_words, views, words};

verus! {

/// One condition on a line.
pub enum Predicate {
    /// The line holds a tag whose body starts with these characters.
    Tag(Vec<char>),
    /// The lower-cased line holds these characters, already lower-cased.
    Keyword(Vec<char>),
    /// The line holds a link `[label](target)`.
    Anchor,
    /// The line starts with the unchecked checkbox marker.
    Checkbox,
}

impl Predicate {
    /// The predicate holds on `line`, whose lower-cased form is `lower`.
    pub open spec fn holds_with(&self, line: Seq<char>, lower: Seq<char>) -> bool {
        match self {
            Predicate::Tag(t) => has_tag(line, t@),
            Predicate::Keyword(k) => contains(lower, k@),
            Predicate::Anchor => has_anchor(line),
            Predicate::Checkbox => starts_with_checkbox(line),
        }
    }

    /// The predicate holds on `line`.
    pub open spec fn holds(&self, line: Seq<char>) -> bool {
        self.holds_with(line, lower_of(line))
    }

    /// Whether the predicate holds on `line`, given its lower-cased form `lower`.
    pub fn holds_on(&self, line: &Vec<char>, lower: &Vec<char>) -> (r: bool)
        ensures
            r == self.holds_with(line@, lower@),
    {
        match self {
            Predicate::Tag(t) => has_tag_exec(line, t),
            Predicate::Keyword(k) => contains_exec(lower, k),
            Predicate::Anchor => has_anchor_exec(line),
            Predicate::Checkbox => starts_with_checkbox_exec(line),
        }
    }
}

/// Every predicate of `preds` holds on `line`, whose lower-cased form is `lower`.
pub open spec fn all_hold(preds: Seq<Predicate>, line: Seq<char>, lower: Seq<char>) -> bool {
    forall|i: int| 0 <= i < preds.len() ==> (#[trigger] preds[i]).holds_with(line, lower)
}

proof fn lemma_all_hold_push(preds: Seq<Predicate>, p: Predicate, line: Seq<char>, lower: Seq<char>)
    ensures
        all_hold(preds.push(p), line, lower) == (all_hold(preds, line, lower) && p.holds_with(line, lower)),
{
    let longer = preds.push(p);
    assert(longer[preds.len() as int] == p);
    if all_hold(preds, line, lower) && p.holds_with(line, lower) {
        assert forall|i: int| 0 <= i < longer.len() implies (#[trigger] longer[i]).holds_with(line, lower) by {
            if i < preds.len() {
                assert(longer[i] == preds[i]);
            }
        }
    }
    if all_hold(longer, line, lower) {
        assert forall|i: int| 0 <= i < preds.len() implies (#[trigger] preds[i]).holds_with(line, lower) by {
            assert(longer[i] == preds[i]);
        }
    }
}

proof fn lemma_tags_hold_step(tags: Seq<String>, i: int, line: Seq<char>)
    requires
        0 <= i < tags.len(),
    ensures
        tags_hold(tags.subrange(0, i + 1), line) == (tags_hold(tags.subrange(0, i), line) && (tags[i]@.len() > 0 ==> has_tag(line, tags[i]@))),
{
    let prev = tags.subrange(0, i);
    let next = tags.subrange(0, i + 1);
    assert(next[i] == tags[i]);
    assert forall|m: int| 0 <= m < i implies next[m] == #[trigger] prev[m] by {}
    if tags_hold(next, line) {
        assert forall|m: int| 0 <= m < prev.len() && (#[trigger] prev[m])@.len() > 0 implies has_tag(line, prev[m]@) by {
            assert(next[m] == prev[m]);
        }
    }
}

proof fn lemma_keywords_hold_step(keywords: Seq<String>, i: int, line: Seq<char>)
    requires
        0 <= i < keywords.len(),
    ensures
        keywords_hold(keywords.subrange(0, i + 1), line) == (keywords_hold(keywords.subrange(0, i), line) && (keywords[i]@.len() > 0 ==> contains(lower_of(line), lower_of(keywords[i]@)))),
{
    let prev = keywords.subrange(0, i);
    let next = keywords.subrange(0, i + 1);
    assert(next[i] == keywords[i]);
    assert forall|m: int| 0 <= m < i implies next[m] == #[trigger] prev[m] by {}
    if keywords_hold(next, line) {
        assert forall|m: int| 0 <= m < prev.len() && (#[trigger] prev[m])@.len() > 0 implies contains(lower_of(line), lower_of(prev[m]@)) by {
            assert(next[m] == prev[m]);
        }
    }
}

/// A predicate over single lines: the conjunction of its conditions.
pub struct Matcher {
    pub preds: Vec<Predicate>,
}

impl Matcher {
    /// The matcher accepts `line`, whose lower-cased form is `lower`.
    pub open spec fn accepts_with(&self, line: Seq<char>, lower: Seq<char>) -> bool {
        all_hold(self.preds@, line, lower)
    }

    /// The matcher accepts `line`.
    pub open spec fn accepts(&self, line: Seq<char>) -> bool {
        self.accepts_with(line, lower_of(line))
    }

    /// Whether the matcher accepts `line`, given its lower-cased form `lower`.
    pub fn matches_lowered(&self, line: &Vec<char>, lower: &Vec<char>) -> (r: bool)
        ensures
            r == self.accepts_with(line@, lower@),
    {
        let mut i: usize = 0;
        while i < self.preds.len()
            invariant
                forall|m: int| 0 <= m < i ==> (#[trigger] self.preds@[m]).holds_with(line@, lower@),
            decreases self.preds@.len() - i,
        {
            if !self.preds[i].holds_on(line, lower) {
                return false;
            }
            i = i + 1;
        }
        true
    }

    /// The matcher of the tag listing: it accepts the lines that hold a tag.
    pub fn any_tag() -> (r: Matcher)
        ensures
            forall|line: Seq<char>| #[trigger] r.accepts(line) == has_tag(line, Seq::empty()),
    {
        let r = Matcher { preds: vec![Predicate::Tag(Vec::new())] };
        proof {
            assert forall|line: Seq<char>| #[trigger] r.accepts(line) == has_tag(line, Seq::empty()) by {
                let p = r.preds@[0];
                assert(p.holds_with(line, lower_of(line)) == has_tag(line, Seq::empty())) by {
                    match p {
                        Predicate::Tag(t) => {
                            assert(t@ =~= Seq::<char>::empty());
                        },
                        _ => {},
                    }
                }
            }
        }
        r
    }

    /// Whether the matcher accepts `line`.
    pub fn matches(&self, line: &str) -> (r: bool)
        ensures
            r == self.accepts(line@),
    {
        let chars = chars_of(line);
        let lower = lower_chars_of(line);
        self.matches_lowered(&chars, &lower)
    }
}

/// What a query asks of a line. Every condition must hold; the empty request
/// asks nothing.
pub struct FilterRequest {
    pub tags: Vec<String>,
    pub keywords: Vec<String>,
    pub checkbox_only: bool,
    pub anchor_only: bool,
}

/// Every non-empty tag of `tags` is on the line.
pub open spec fn tags_hold(tags: Seq<String>, line: Seq<char>) -> bool {
    forall|m: int| 0 <= m < tags.len() && (#[trigger] tags[m])@.len() > 0 ==> has_tag(line, tags[m]@)
}

/// Every non-empty keyword of `keywords` is in the line, ignoring case.
pub open spec fn keywords_hold(keywords: Seq<String>, line: Seq<char>) -> bool {
    forall|m: int|
        0 <= m < keywords.len() && (#[trigger] keywords[m])@.len() > 0 ==> contains(
            lower_of(line),
            lower_of(keywords[m]@),
        )
}

impl FilterRequest {
    /// The request for the space-separated `tags` and `keywords` and the two
    /// flags; each list keeps its non-empty words in order.
    pub fn new(tags: &str, keywords: &str, checkbox_only: bool, anchor_only: bool) -> (r:
        FilterRequest)
        ensures
            views(r.tags@) == words(tags@),
            views(r.keywords@) == words(keywords@),
            r.checkbox_only == checkbox_only,
            r.anchor_only == anchor_only,
    {
        FilterRequest {
            tags: split_words(tags),
            keywords: split_words(keywords),
            checkbox_only,
            anchor_only,
        }
    }

    /// The request accepts `line`: every condition that it sets holds there.
    pub open spec fn accepts(&self, line: Seq<char>) -> bool {
        &&& tags_hold(self.tags@, line)
        &&& keywords_hold(self.keywords@, line)
        &&& self.anchor_only ==> has_anchor(line)
        &&& self.checkbox_only ==> starts_with_checkbox(line)
    }
}

/// Turns a request into a matcher that accepts exactly the lines that the request
/// accepts.
pub fn compile(req: &FilterRequest) -> (r: Matcher)
    ensures
        forall|line: Seq<char>| #[trigger] r.accepts(line) == req.accepts(line),
{
    let mut preds: Vec<Predicate> = Vec::new();
    let mut i: usize = 0;
    while i < req.tags.len()
        invariant
            i <= req.tags@.len(),
            forall|line: Seq<char>, lower: Seq<char>|
                #[trigger] all_hold(preds@, line, lower) == tags_hold(req.tags@.subrange(0, i as int), line),
        decreases req.tags@.len() - i,
    {
        let ghost before = preds@;
        if !req.tags[i].as_str().is_empty() {
            preds.push(Predicate::Tag(chars_of(req.tags[i].as_str())));
        }
        proof {
            assert forall|line: Seq<char>, lower: Seq<char>|
                #[trigger] all_hold(preds@, line, lower) == tags_hold(req.tags@.subrange(0, i + 1), line) by {
                assert(all_hold(before, line, lower) == tags_hold(req.tags@.subrange(0, i as int), line));
                lemma_tags_hold_step(req.tags@, i as int, line);
                if req.tags@[i as int]@.len() > 0 {
                    assert(preds@ == before.push(preds@.last()));
                    lemma_all_hold_push(before, preds@.last(), line, lower);
                }
            }
        }
        i = i + 1;
    }
    proof {
        assert(req.tags@.subrange(0, req.tags@.len() as int) == req.tags@);
    }
    let ghost after_tags = preds@;
    let mut i: usize = 0;
    while i < req.keywords.len()
        invariant
            i <= req.keywords@.len(),
            forall|line: Seq<char>| #[trigger] all_hold(preds@, line, lower_of(line)) == (tags_hold(req.tags@, line)
                && keywords_hold(req.keywords@.subrange(0, i as int), line)),
        decreases req.keywords@.len() - i,
    {
        let ghost before = preds@;
        if !req.keywords[i].as_str().is_empty() {
            preds.push(Predicate::Keyword(lower_chars_of(req.keywords[i].as_str())));
        }
        proof {
            assert forall|line: Seq<char>| #[trigger] all_hold(preds@, line, lower_of(line)) == (tags_hold(req.tags@, line)
                && keywords_hold(req.keywords@.subrange(0, i + 1), line)) by {
                assert(all_hold(before, line, lower_of(line)) == (tags_hold(req.tags@, line) && keywords_hold(req.keywords@.subrange(0, i as int), line)));
                lemma_keywords_hold_step(req.keywords@, i as int, line);
                if req.keywords@[i as int]@.len() > 0 {
                    assert(preds@ == before.push(preds@.last()));
                    lemma_all_hold_push(before, preds@.last(), line, lower_of(line));
                }
            }
        }
        i = i + 1;
    }
    proof {
        assert(req.keywords@.subrange(0, req.keywords@.len() as int) == req.keywords@);
    }
    let ghost before = preds@;
    if req.anchor_only {
        preds.push(Predicate::Anchor);
    }
    let ghost middle = preds@;
    if req.checkbox_only {
        preds.push(Predicate::Checkbox);
    }
    let r = Matcher { preds };
    proof {
        assert forall|line: Seq<char>| #[trigger] r.accepts(line) == req.accepts(line) by {
            assert(all_hold(before, line, lower_of(line)) == (tags_hold(req.tags@, line) && keywords_hold(req.keywords@, line)));
            if req.anchor_only {
                lemma_all_hold_push(before, Predicate::Anchor, line, lower_of(line));
            } else {
                assert(middle == before);
            }
            if req.checkbox_only {
                lemma_all_hold_push(middle, Predicate::Checkbox, line, lower_of(line));
            } else {
                assert(r.preds@ == middle);
            }
        }
    }
    r
}

} // verus!

verus! {

/// A request that sets no condition accepts every line, empty or not.
pub proof fn lemma_empty_request_accepts_all(req: FilterRequest, line: Seq<char>)
    requires
        req.tags@.len() == 0,
        req.keywords@.len() == 0,
        !req.checkbox_only,
        !req.anchor_only,
    ensures
        req.accepts(line),
{
}

/// A request for the single tag `t` accepts a line exactly when the line holds
/// an underscore, then `t`, then characters other than an underscore, then an
/// underscore.
pub proof fn lemma_single_tag_request(req: FilterRequest, line: Seq<char>)
    requires
        req.tags@.len() == 1,
        req.tags@[0]@.len() > 0,
        req.keywords@.len() == 0,
        !req.checkbox_only,
        !req.anchor_only,
    ensures
        req.accepts(line) == has_tag(line, req.tags@[0]@),
        req.accepts(line) == exists|i: int, j: int| crate::predicate::tag_at(line, req.tags@[0]@, i, j),
{
}

/// A request for one tag and one keyword accepts a line exactly when the line
/// holds the tag and, ignoring case, the keyword, in whichever order.
pub proof fn lemma_tag_and_keyword_request(req: FilterRequest, line: Seq<char>)
    requires
        req.tags@.len() == 1,
        req.tags@[0]@.len() > 0,
        req.keywords@.len() == 1,
        req.keywords@[0]@.len() > 0,
        !req.checkbox_only,
        !req.anchor_only,
    ensures
        req.accepts(line) == (has_tag(line, req.tags@[0]@) && contains(
            lower_of(line),
            lower_of(req.keywords@[0]@),
        )),
{
}

} // verus!
