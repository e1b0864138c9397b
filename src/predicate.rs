use vstd::prelude::*;
use crate::text::{contains, contains_exec, occurs_at, occurs_at_exec};

verus! {

/// A tag whose body starts with `t` opens at `i` and closes at `j`: an
/// underscore, then `t`, then characters other than an underscore, then an
/// underscore.
pub open spec fn tag_at(line: Seq<char>, t: Seq<char>, i: int, j: int) -> bool {
    &&& 0 <= i < line.len()
    &&& line[i] == '_'
    &&& occurs_at(line, t, i + 1)
    &&& i + 1 + t.len() <= j < line.len()
    &&& line[j] == '_'
    &&& forall|k: int| i + 1 + t.len() <= k < j ==> line[k] != '_'
}

/// The line holds a tag whose body starts with `t`.
pub open spec fn has_tag(line: Seq<char>, t: Seq<char>) -> bool {
    exists|i: int, j: int| tag_at(line, t, i, j)
}

/// A link opens its label at `i`, closes it at `j` and opens its target right
/// after.
pub open spec fn link_opens_at(line: Seq<char>, i: int, j: int) -> bool {
    &&& 0 <= i < j
    &&& j + 1 < line.len()
    &&& line[i] == '['
    &&& line[j] == ']'
    &&& line[j + 1] == '('
}

/// A link opens at `i` and `j` as above and closes its target at `k`.
pub open spec fn anchor_at(line: Seq<char>, i: int, j: int, k: int) -> bool {
    &&& link_opens_at(line, i, j)
    &&& j + 1 < k < line.len()
    &&& line[k] == ')'
}

/// The line holds a link of the shape `[label](target)`.
pub open spec fn has_anchor(line: Seq<char>) -> bool {
    exists|i: int, j: int, k: int| anchor_at(line, i, j, k)
}

/// The marker of an unchecked checkbox item.
pub open spec fn checkbox_marker() -> Seq<char> {
    seq!['-', ' ', '[', ' ', ']']
}

/// The line starts with the unchecked checkbox marker.
pub open spec fn starts_with_checkbox(line: Seq<char>) -> bool {
    occurs_at(line, checkbox_marker(), 0)
}

/// The first underscore at or after `p`, if any.
fn first_underscore_from(line: &Vec<char>, p: usize) -> (r: Option<usize>)
    ensures
        r matches Some(j) ==> p <= j < line@.len() && line@[j as int] == '_' && (forall|k: int|
            p <= k < j ==> line@[k] != '_'),
        r is None ==> forall|k: int| p <= k < line@.len() ==> line@[k] != '_',
{
    let mut q: usize = p;
    while q < line.len()
        invariant
            p <= q,
            forall|k: int| p <= k < q ==> line@[k] != '_',
        decreases line@.len() - q,
    {
        if line[q] == '_' {
            return Some(q);
        }
        q = q + 1;
    }
    None
}

/// Whether the line holds a tag whose body starts with `t`.
pub fn has_tag_exec(line: &Vec<char>, t: &Vec<char>) -> (r: bool)
    ensures
        r == has_tag(line@, t@),
{
    let mut i: usize = 0;
    while i < line.len()
        invariant
            forall|a: int, b: int| 0 <= a < i ==> !tag_at(line@, t@, a, b),
        decreases line@.len() - i,
    {
        if line[i] == '_' && occurs_at_exec(line, t, i + 1) {
            let p = i + 1 + t.len();
            match first_underscore_from(line, p) {
                Some(j) => {
                    proof {
                        assert(tag_at(line@, t@, i as int, j as int));
                    }
                    return true;
                },
                None => {},
            }
        }
        i = i + 1;
    }
    false
}

/// Whether the line holds a link of the shape `[label](target)`.
pub fn has_anchor_exec(line: &Vec<char>) -> (r: bool)
    ensures
        r == has_anchor(line@),
{
    let n = line.len();
    let mut opened = false;
    let mut mid = false;
    let mut p: usize = 0;
    while p < n
        invariant
            n == line@.len(),
            p <= n,
            opened <==> exists|i: int| 0 <= i < p && line@[i] == '[',
            mid <==> exists|i: int, j: int| j < p && #[trigger] link_opens_at(line@, i, j),
            forall|i: int, j: int, k: int| k < p ==> !anchor_at(line@, i, j, k),
        decreases n - p,
    {
        let c = line[p];
        if mid && c == ')' {
            proof {
                let (i, j) = choose|i: int, j: int| j < p && #[trigger] link_opens_at(line@, i, j);
                assert(anchor_at(line@, i, j, p as int));
            }
            return true;
        }
        if opened && c == ']' && p + 1 < n && line[p + 1] == '(' {
            mid = true;
            proof {
                let i = choose|i: int| 0 <= i < p && line@[i] == '[';
                assert(link_opens_at(line@, i, p as int));
            }
        }
        if c == '[' {
            opened = true;
        }
        proof {
            assert forall|i: int, j: int, k: int| k < p + 1 implies !anchor_at(line@, i, j, k) by {
                if k == p && anchor_at(line@, i, j, k) {
                    assert(j < p && link_opens_at(line@, i, j));
                }
            }
        }
        p = p + 1;
    }
    false
}

/// Whether the line starts with the unchecked checkbox marker.
pub fn starts_with_checkbox_exec(line: &Vec<char>) -> (r: bool)
    ensures
        r == starts_with_checkbox(line@),
{
    let marker: Vec<char> = vec!['-', ' ', '[', ' ', ']'];
    proof {
        assert(marker@ =~= checkbox_marker());
    }
    occurs_at_exec(line, &marker, 0)
}

} // verus!
