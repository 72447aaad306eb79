//! The selection stage: the chosen set must be non-empty, and everything the
//! user did not choose becomes the exclusion set handed to the runner.

use vstd::prelude::*;

verus! {

/// The entries of `options` that do not occur in `chosen`, in the order
/// `options` lists them.
pub open spec fn excluded(options: Seq<Seq<char>>, chosen: Seq<Seq<char>>) -> Seq<Seq<char>>
    decreases options.len(),
{
    if options.len() == 0 {
        Seq::empty()
    } else {
        let rest = excluded(options.drop_last(), chosen);
        if chosen.contains(options.last()) {
            rest
        } else {
            rest.push(options.last())
        }
    }
}

/// An identifier is excluded exactly when it is offered and not chosen.
pub proof fn lemma_excluded_membership(
    options: Seq<Seq<char>>,
    chosen: Seq<Seq<char>>,
    x: Seq<char>,
)
    ensures
        excluded(options, chosen).contains(x) <==> (options.contains(x) && !chosen.contains(x)),
    decreases options.len(),
{
    if options.len() == 0 {
    } else {
        let front = options.drop_last();
        let last = options.last();
        let rest = excluded(front, chosen);
        let e = excluded(options, chosen);
        lemma_excluded_membership(front, chosen, x);
        if front.contains(x) {
            let i = choose|i: int| 0 <= i < front.len() && front[i] == x;
            assert(options[i] == x);
        }
        if rest.contains(x) {
            let j = choose|j: int| 0 <= j < rest.len() && rest[j] == x;
            assert(e[j] == x);
        }
        if e.contains(x) {
            let j = choose|j: int| 0 <= j < e.len() && e[j] == x;
            if !chosen.contains(last) && j == e.len() - 1 {
                assert(options[options.len() - 1] == x);
            } else {
                assert(rest[j] == x);
            }
        }
        if options.contains(x) && !chosen.contains(x) {
            let i = choose|i: int| 0 <= i < options.len() && options[i] == x;
            if i < options.len() - 1 {
                assert(front[i] == x);
            } else {
                assert(e[e.len() - 1] == x);
            }
        }
    }
}

/// Whether some entry of `v` holds the same characters as `s`.
fn contains_string(v: &Vec<String>, s: &String) -> (b: bool)
    ensures
        b == v.deep_view().contains(s@),
{
    let mut i: usize = 0;
    while i < v.len()
        invariant
            i <= v.len(),
            forall|j: int| 0 <= j < i ==> v.deep_view()[j] != s@,
        decreases v.len() - i,
    {
        if v[i] == *s {
            proof {
                assert(v.deep_view()[i as int] == s@);
            }
            return true;
        }
        i += 1;
    }
    false
}

/// Everything offered that was not chosen, in the order it was offered.
pub fn exclusion_set(options: &Vec<String>, chosen: &Vec<String>) -> (r: Vec<String>)
    ensures
        r.deep_view() == excluded(options.deep_view(), chosen.deep_view()),
{
    let ghost ov: Seq<Seq<char>> = options.deep_view();
    let ghost cv: Seq<Seq<char>> = chosen.deep_view();
    let mut out: Vec<String> = Vec::new();
    let mut i: usize = 0;
    while i < options.len()
        invariant
            ov == options.deep_view(),
            cv == chosen.deep_view(),
            i <= options.len(),
            out.deep_view() == excluded(ov.take(i as int), cv),
        decreases options.len() - i,
    {
        let ghost prev: Seq<Seq<char>> = out.deep_view();
        proof {
            assert(ov[i as int] == options@[i as int]@);
        }
        if !contains_string(chosen, &options[i]) {
            let item = options[i].clone();
            out.push(item);
            proof {
                assert(out.deep_view() =~= prev.push(ov[i as int]));
            }
        }
        proof {
            assert(ov.take(i + 1).drop_last() =~= ov.take(i as int));
            assert(ov.take(i + 1).last() == ov[i as int]);
        }
        i += 1;
    }
    proof {
        assert(ov.take(options.len() as int) =~= ov);
    }
    out
}

/// A selection passes validation exactly when it is non-empty.
pub open spec fn selection_ok(chosen: Seq<Seq<char>>) -> bool {
    chosen.len() > 0
}

/// Rejects an empty selection with the message the prompt shows; accepts
/// any selection that names at least one test.
pub fn validate_selection(chosen: &Vec<String>) -> (r: Result<(), String>)
    ensures
        r is Ok <==> selection_ok(chosen.deep_view()),
        r matches Err(m) ==> m@ == "You must select at least one test."@,
{
    if chosen.len() == 0 {
        Err("You must select at least one test.".to_owned())
    } else {
        Ok(())
    }
}

} // verus!
