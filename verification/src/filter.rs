//! Extracting test identifiers from the runner's list-mode output: a line
//! names a runnable test exactly when it ends in the fixed marker `": test"`;
//! the marker is stripped and the rest of the line kept verbatim, in input
//! order.

use vstd::prelude::*;

use crate::text::has_suffix;

verus! {

/// The trailing marker the runner's list output puts after each runnable test.
pub open spec fn test_marker() -> Seq<char> {
    ": test"@
}

/// Whether a line of list output names a runnable test.
pub open spec fn is_test_line(line: Seq<char>) -> bool {
    test_marker().is_suffix_of(line)
}

/// The identifier a marked line names: everything before the marker.
pub open spec fn stripped(line: Seq<char>) -> Seq<char>
    recommends
        is_test_line(line),
{
    line.take(line.len() - test_marker().len())
}

/// The identifiers of the marked lines, in input order; unmarked lines
/// contribute nothing.
pub open spec fn filtered(lines: Seq<Seq<char>>) -> Seq<Seq<char>>
    decreases lines.len(),
{
    if lines.len() == 0 {
        Seq::empty()
    } else {
        let rest = filtered(lines.drop_last());
        if is_test_line(lines.last()) {
            rest.push(stripped(lines.last()))
        } else {
            rest
        }
    }
}

/// The index in `lines` of the line that produced entry `k` of
/// `filtered(lines)`.
pub open spec fn source_of(lines: Seq<Seq<char>>, k: int) -> int
    decreases lines.len(),
{
    if lines.len() == 0 {
        0
    } else {
        let prefix = filtered(lines.drop_last());
        if k < prefix.len() {
            source_of(lines.drop_last(), k)
        } else {
            lines.len() - 1
        }
    }
}

/// Every surviving identifier is, verbatim, a marked input line with its
/// marker stripped; the survivors keep the order of the lines they came
/// from; and every marked line contributes a survivor.
pub proof fn lemma_filtered_order(lines: Seq<Seq<char>>)
    ensures
        forall|k: int|
            0 <= k < filtered(lines).len() ==> {
                let i = #[trigger] source_of(lines, k);
                &&& 0 <= i < lines.len()
                &&& is_test_line(lines[i])
                &&& filtered(lines)[k] == stripped(lines[i])
            },
        forall|k1: int, k2: int|
            0 <= k1 < k2 < filtered(lines).len() ==> #[trigger] source_of(lines, k1)
                < #[trigger] source_of(lines, k2),
        forall|i: int|
            0 <= i < lines.len() && is_test_line(#[trigger] lines[i]) ==> exists|k: int|
                0 <= k < filtered(lines).len() && #[trigger] source_of(lines, k) == i,
    decreases lines.len(),
{
    if lines.len() == 0 {
    } else {
        let front = lines.drop_last();
        lemma_filtered_order(front);
        let prefix = filtered(front);
        assert forall|k: int| 0 <= k < filtered(lines).len() implies {
            let i = #[trigger] source_of(lines, k);
            &&& 0 <= i < lines.len()
            &&& is_test_line(lines[i])
            &&& filtered(lines)[k] == stripped(lines[i])
        } by {
            if k < prefix.len() {
                assert(source_of(lines, k) == source_of(front, k));
                assert(front[source_of(front, k)] == lines[source_of(front, k)]);
            } else {
                assert(is_test_line(lines.last()));
                assert(k == prefix.len());
            }
        }
        assert forall|k1: int, k2: int|
            0 <= k1 < k2 < filtered(lines).len() implies #[trigger] source_of(lines, k1)
            < #[trigger] source_of(lines, k2) by {
            if k2 < prefix.len() {
                assert(source_of(front, k1) < source_of(front, k2));
            } else {
                assert(source_of(lines, k2) == lines.len() - 1);
                assert(k1 < prefix.len());
                assert(source_of(lines, k1) == source_of(front, k1));
                assert(0 <= source_of(front, k1) < front.len());
            }
        }
        assert forall|i: int|
            0 <= i < lines.len() && is_test_line(#[trigger] lines[i]) implies exists|k: int|
            0 <= k < filtered(lines).len() && #[trigger] source_of(lines, k) == i by {
            if i < lines.len() - 1 {
                assert(front[i] == lines[i]);
                let k = choose|k: int|
                    0 <= k < prefix.len() && #[trigger] source_of(front, k) == i;
                assert(source_of(lines, k) == i);
            } else {
                assert(is_test_line(lines.last()));
                assert(source_of(lines, prefix.len() as int) == i);
            }
        }
    }
}

/// Strips the marker from one line: the identifier for a marked line,
/// nothing for any other line.
pub fn strip_test_marker(line: &str) -> (r: Option<String>)
    ensures
        is_test_line(line@) ==> (r matches Some(id) && id@ == stripped(line@)),
        !is_test_line(line@) ==> r is None,
{
    let marker: &str = ": test";
    if has_suffix(line, marker) {
        let n: usize = line.unicode_len();
        let m: usize = marker.unicode_len();
        let prefix: &str = line.substring_char(0, n - m);
        Some(prefix.to_owned())
    } else {
        None
    }
}

/// Keeps, in input order, the identifier of every line that ends in the
/// marker; all other lines are dropped.
pub fn filter_test_options(lines: Vec<String>) -> (r: Vec<String>)
    ensures
        r.deep_view() == filtered(lines.deep_view()),
{
    let ghost lv: Seq<Seq<char>> = lines.deep_view();
    let mut out: Vec<String> = Vec::new();
    let mut i: usize = 0;
    while i < lines.len()
        invariant
            lv == lines.deep_view(),
            i <= lines.len(),
            out.deep_view() == filtered(lv.take(i as int)),
        decreases lines.len() - i,
    {
        let ghost prev: Seq<Seq<char>> = out.deep_view();
        proof {
            assert(lv[i as int] == lines@[i as int]@);
        }
        match strip_test_marker(lines[i].as_str()) {
            Some(id) => {
                out.push(id);
                proof {
                    assert(out.deep_view() =~= prev.push(stripped(lv[i as int])));
                }
            },
            None => {},
        }
        proof {
            assert(lv.take(i + 1).drop_last() =~= lv.take(i as int));
            assert(lv.take(i + 1).last() == lv[i as int]);
        }
        i += 1;
    }
    proof {
        assert(lv.take(lines.len() as int) =~= lv);
    }
    out
}

} // verus!
