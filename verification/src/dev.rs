//! Device nodes in `/dev`.

use crate::text::{has_prefix, in_order, insert_sorted, lex_le, starts_with, texts};
use vstd::prelude::*;

verus! {

/// The paths of those of `names` that start with `prefix`, for names in `/dev`.
pub open spec fn device_paths(names: Seq<Seq<char>>, prefix: Seq<char>) -> Seq<Seq<char>>
    decreases names.len(),
{
    if names.len() == 0 {
        Seq::empty()
    } else {
        let rest = device_paths(names.drop_last(), prefix);
        if has_prefix(names.last(), prefix) {
            rest.push("/dev/"@ + names.last())
        } else {
            rest
        }
    }
}

/// The device nodes among the entries of `/dev` whose name starts with `prefix`,
/// in order.
pub fn device_nodes(names: &Vec<String>, prefix: &str) -> (nodes: Vec<String>)
    ensures
        in_order(texts(nodes@)),
        texts(nodes@).to_multiset() == device_paths(texts(names@), prefix@).to_multiset(),
{
    let mut nodes: Vec<String> = Vec::new();
    let mut i: usize = 0;
    proof {
        assert(texts(names@).take(0) =~= Seq::<Seq<char>>::empty());
        assert(texts(nodes@) =~= Seq::<Seq<char>>::empty());
    }
    while i < names.len()
        invariant
            i <= names@.len(),
            in_order(texts(nodes@)),
            texts(nodes@).to_multiset() == device_paths(
                texts(names@).take(i as int),
                prefix@,
            ).to_multiset(),
        decreases names@.len() - i,
    {
        let ghost all = texts(names@);
        proof {
            assert(all.take(i + 1).drop_last() =~= all.take(i as int));
            assert(all.take(i + 1).last() == names@[i as int]@);
            vstd::seq_lib::to_multiset_build(
                device_paths(all.take(i as int), prefix@),
                "/dev/"@ + names@[i as int]@,
            );
        }
        if starts_with(names[i].as_str(), prefix) {
            let path: String = "/dev/".to_owned().concat(names[i].as_str());
            insert_sorted(&mut nodes, path);
        }
        i = i + 1;
    }
    assert(texts(names@).take(names@.len() as int) =~= texts(names@));
    nodes
}

/// `path` is the first in order of the device nodes whose name starts with
/// `prefix`.
pub open spec fn is_first_device(path: Seq<char>, names: Seq<Seq<char>>, prefix: Seq<char>) -> bool {
    &&& device_paths(names, prefix).contains(path)
    &&& forall|i: int|
        0 <= i < device_paths(names, prefix).len() ==> lex_le(
            path,
            #[trigger] device_paths(names, prefix)[i],
        )
}

/// The first in order of the device nodes whose name starts with `prefix`.
pub fn first_device(names: &Vec<String>, prefix: &str) -> (r: Option<String>)
    ensures
        match r {
            Some(path) => is_first_device(path@, texts(names@), prefix@),
            None => device_paths(texts(names@), prefix@).len() == 0,
        },
{
    let nodes: Vec<String> = device_nodes(names, prefix);
    let ghost have = texts(nodes@);
    let ghost want = device_paths(texts(names@), prefix@);
    proof {
        vstd::seq_lib::to_multiset_len(have);
        vstd::seq_lib::to_multiset_len(want);
    }
    if nodes.len() == 0 {
        return None;
    }
    proof {
        vstd::seq_lib::to_multiset_contains(have, have[0]);
        vstd::seq_lib::to_multiset_contains(want, have[0]);
        assert(have.contains(have[0]));
        assert forall|i: int| 0 <= i < want.len() implies lex_le(have[0], #[trigger] want[i]) by {
            assert(want.contains(want[i]));
            vstd::seq_lib::to_multiset_contains(want, want[i]);
            vstd::seq_lib::to_multiset_contains(have, want[i]);
            let j = choose|j: int| 0 <= j < have.len() && have[j] == want[i];
            assert(lex_le(have[0], have[j]));
        }
    }
    Some(nodes[0].clone())
}

/// The device nodes are those entries of `/dev` whose name starts with the prefix, and
/// no others: what stands after it, or where the entry stands in the listing, plays no
/// part.
pub proof fn law_nodes_are_the_entries_with_the_prefix(
    names: Seq<Seq<char>>,
    prefix: Seq<char>,
    path: Seq<char>,
)
    ensures
        device_paths(names, prefix).contains(path) <==> exists|i: int|
            0 <= i < names.len() && has_prefix(#[trigger] names[i], prefix) && path == "/dev/"@
                + names[i],
    decreases names.len(),
{
    let paths = device_paths(names, prefix);
    if names.len() > 0 {
        let n = names.len() - 1;
        let shorter = names.drop_last();
        let rest = device_paths(shorter, prefix);
        law_nodes_are_the_entries_with_the_prefix(shorter, prefix, path);
        if paths.contains(path) {
            let k = choose|k: int| 0 <= k < paths.len() && paths[k] == path;
            if k < rest.len() {
                assert(rest[k] == path);
                assert(rest.contains(path));
                let i = choose|i: int|
                    0 <= i < shorter.len() && has_prefix(#[trigger] shorter[i], prefix) && path
                        == "/dev/"@ + shorter[i];
                assert(names[i] == shorter[i]);
            } else {
                assert(has_prefix(names[n], prefix) && path == "/dev/"@ + names[n]);
            }
        }
        if exists|i: int|
            0 <= i < names.len() && has_prefix(#[trigger] names[i], prefix) && path == "/dev/"@
                + names[i] {
            let i = choose|i: int|
                0 <= i < names.len() && has_prefix(#[trigger] names[i], prefix) && path == "/dev/"@
                    + names[i];
            if i < n {
                assert(shorter[i] == names[i]);
                assert(rest.contains(path));
                let k = choose|k: int| 0 <= k < rest.len() && rest[k] == path;
                assert(paths[k] == path);
            } else {
                assert(paths[paths.len() - 1] == path);
            }
        }
    }
}

/// Each entry gives one node at most, wherever it stands in the listing.
pub proof fn law_nodes_add_up(a: Seq<Seq<char>>, b: Seq<Seq<char>>, prefix: Seq<char>)
    ensures
        device_paths(a + b, prefix) == device_paths(a, prefix) + device_paths(b, prefix),
        device_paths(a, prefix).len() <= a.len(),
    decreases a.len() + b.len(),
{
    if b.len() == 0 {
        assert(a + b =~= a);
        assert(device_paths(a, prefix) + device_paths(b, prefix) =~= device_paths(a, prefix));
        if a.len() > 0 {
            law_nodes_add_up(a.drop_last(), b, prefix);
        }
    } else {
        assert((a + b).drop_last() =~= a + b.drop_last());
        assert((a + b).last() == b.last());
        law_nodes_add_up(a, b.drop_last(), prefix);
        assert(device_paths(a + b, prefix) =~= device_paths(a, prefix) + device_paths(b, prefix));
    }
}

/// The first device is one of the nodes, and no node comes before it.
pub proof fn law_first_device_is_least(
    path: Seq<char>,
    names: Seq<Seq<char>>,
    prefix: Seq<char>,
    i: int,
)
    requires
        is_first_device(path, names, prefix),
        0 <= i < names.len(),
        has_prefix(names[i], prefix),
    ensures
        lex_le(path, "/dev/"@ + names[i]),
        exists|k: int|
            0 <= k < names.len() && has_prefix(#[trigger] names[k], prefix) && path == "/dev/"@
                + names[k],
{
    let paths = device_paths(names, prefix);
    let other = "/dev/"@ + names[i];
    law_nodes_are_the_entries_with_the_prefix(names, prefix, path);
    law_nodes_are_the_entries_with_the_prefix(names, prefix, other);
    assert(paths.contains(other));
    let k = choose|k: int| 0 <= k < paths.len() && paths[k] == other;
    assert(lex_le(path, paths[k]));
}

} // verus!
