//! The environment of a script, written as the shell takes it.

use crate::pairs::{OrderedMap, Pair};
use crate::text::{followed_by, remove_all, spec_remove_all, starts_with, texts};
use vstd::prelude::*;

verus! {

/// The assignment of `value` to `name`, with `lead` before it.
pub open spec fn spec_assignment(lead: Seq<char>, name: Seq<char>, value: Seq<char>) -> Seq<char> {
    lead + name + "="@ + value
}

/// The assignment of `value` to `name`, with `lead` before it.
pub fn assignment(lead: &str, name: &str, value: &str) -> (line: String)
    ensures
        line@ == spec_assignment(lead@, name@, value@),
{
    let mut line = followed_by(lead, name);
    line.append("=");
    line.append(value);
    line
}

/// The assignments of the variables in `variables`, in their order.
pub open spec fn spec_assignments(variables: Seq<Pair>, lead: Seq<char>) -> Seq<Seq<char>> {
    Seq::new(variables.len(), |i: int| spec_assignment(lead, variables[i].0, variables[i].1))
}

/// The assignments of the variables in `variables`, in their order.
pub fn assignments(variables: &OrderedMap, lead: &str) -> (lines: Vec<String>)
    ensures
        texts(lines@) == spec_assignments(variables@, lead@),
{
    let mut lines: Vec<String> = Vec::new();
    let mut i: usize = 0;
    while i < variables.len()
        invariant
            i <= variables@.len(),
            lines@.len() == i,
            forall|j: int|
                0 <= j < i ==> (#[trigger] lines@[j])@ == spec_assignment(
                    lead@,
                    variables@[j].0,
                    variables@[j].1,
                ),
        decreases variables@.len() - i,
    {
        match (variables.key(i), variables.value(i)) {
            (Some(name), Some(value)) => {
                lines.push(assignment(lead, name.as_str(), value.as_str()));
            },
            _ => {},
        }
        i += 1;
    }
    lines
}

/// The views of a sequence of pairs of strings.
pub open spec fn pair_views(pairs: Seq<(String, String)>) -> Seq<Pair> {
    Seq::new(pairs.len(), |i: int| (pairs[i].0@, pairs[i].1@))
}

/// The assignments that hand on the variables of the process whose names
/// begin with `mark`: each under its name without the occurrences of
/// `mark`, in the order of `variables`.
pub open spec fn spec_forwarded(variables: Seq<Pair>, mark: Seq<char>, lead: Seq<char>) -> Seq<
    Seq<char>,
>
    decreases variables.len(),
{
    if variables.len() == 0 {
        Seq::empty()
    } else {
        let earlier = spec_forwarded(variables.drop_last(), mark, lead);
        let (name, value) = variables.last();
        if mark.is_prefix_of(name) {
            earlier.push(spec_assignment(lead, spec_remove_all(name, mark), value))
        } else {
            earlier
        }
    }
}

/// Every assignment that hands a variable on begins with `lead`.
pub proof fn lemma_forwarded_are_exports(variables: Seq<Pair>, mark: Seq<char>, lead: Seq<char>)
    ensures
        forall|i: int|
            0 <= i < spec_forwarded(variables, mark, lead).len() ==> lead.is_prefix_of(
                #[trigger] spec_forwarded(variables, mark, lead)[i],
            ),
    decreases variables.len(),
{
    if variables.len() > 0 {
        lemma_forwarded_are_exports(variables.drop_last(), mark, lead);
        let earlier = spec_forwarded(variables.drop_last(), mark, lead);
        let all = spec_forwarded(variables, mark, lead);
        let (name, value) = variables.last();
        assert forall|i: int| 0 <= i < all.len() implies lead.is_prefix_of(#[trigger] all[i]) by {
            if i < earlier.len() {
                assert(all[i] == earlier[i]);
            } else {
                let line = spec_assignment(lead, spec_remove_all(name, mark), value);
                assert(all[i] == line);
                assert(line.subrange(0, lead.len() as int) =~= lead);
            }
        }
    }
}

/// Adds to `lines` the assignments that hand on the variables of the
/// process whose names begin with `mark`.
pub fn push_forwarded(
    lines: &mut Vec<String>,
    variables: &Vec<(String, String)>,
    mark: &str,
    lead: &str,
)
    ensures
        texts(final(lines)@) == texts(old(lines)@) + spec_forwarded(
            pair_views(variables@),
            mark@,
            lead@,
        ),
{
    let ghost before = texts(lines@);
    let ghost all = pair_views(variables@);
    let mut i: usize = 0;
    while i < variables.len()
        invariant
            i <= variables@.len(),
            all == pair_views(variables@),
            texts(lines@) == before + spec_forwarded(all.take(i as int), mark@, lead@),
        decreases variables@.len() - i,
    {
        assert(all.take(i + 1).drop_last() =~= all.take(i as int));
        let name = variables[i].0.as_str();
        if starts_with(name, mark) {
            let ghost so_far = texts(lines@);
            let line = assignment(lead, remove_all(name, mark).as_str(), variables[i].1.as_str());
            lines.push(line);
            assert(texts(lines@) =~= so_far.push(line@));
        }
        i += 1;
    }
    assert(all.take(variables@.len() as int) =~= all);
}

} // verus!
