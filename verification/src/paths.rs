//! File system paths, as the bytes that the operating system takes.

use vstd::prelude::*;
use vstd::utf8::encode_utf8;

verus! {

/// The path of `name` in the directory `dir`: the two with a slash between them,
/// unless `dir` is empty or ends with one.
pub open spec fn spec_join(dir: Seq<u8>, name: Seq<u8>) -> Seq<u8> {
    if dir.len() == 0 || dir.last() == 0x2f {
        dir + name
    } else {
        dir.push(0x2f) + name
    }
}

/// `s` ends with `tail`.
pub open spec fn has_suffix(s: Seq<u8>, tail: Seq<u8>) -> bool {
    tail.len() <= s.len() && s.skip(s.len() - tail.len()) == tail
}

/// Adds a relative file name to a directory.
pub fn join(dir: Vec<u8>, name: &str) -> (path: Vec<u8>)
    ensures
        path@ == spec_join(dir@, encode_utf8(name@)),
{
    let n: usize = dir.len();
    let mut path: Vec<u8> = dir;
    if n > 0 && path[n - 1] != 0x2f {
        path.push(0x2f);
    }
    let mut tail: Vec<u8> = name.as_bytes_vec();
    path.append(&mut tail);
    path
}

/// A joined path is the directory, then the name, with a single slash between them
/// that is added only where the directory has none at its end. Nothing is added to
/// an empty directory.
pub proof fn law_join_keeps_both(dir: Seq<u8>, name: Seq<u8>)
    ensures
        ({
            let path = spec_join(dir, name);
            let added = path.len() - dir.len() - name.len();
            &&& path.take(dir.len() as int) == dir
            &&& path.skip(path.len() - name.len()) == name
            &&& has_suffix(path, name)
            &&& added == 0 || added == 1
            &&& added == 1 <==> dir.len() > 0 && dir.last() != 0x2f
            &&& added == 1 ==> path[dir.len() as int] == 0x2f
        }),
{
    let path = spec_join(dir, name);
    assert(path.take(dir.len() as int) =~= dir);
    assert(path.skip(path.len() - name.len()) =~= name);
}

/// A byte string ends with whatever it was put together from at its end, and with
/// nothing else of that length.
pub proof fn law_suffix_is_the_end(s: Seq<u8>, tail: Seq<u8>, other: Seq<u8>)
    ensures
        has_suffix(s + tail, tail),
        has_suffix(s + tail, other) && other.len() == tail.len() ==> other == tail,
        has_suffix(s, tail) ==> s == s.take(s.len() - tail.len()) + tail,
        has_suffix(tail, other) ==> has_suffix(s + tail, other),
{
    assert((s + tail).skip((s + tail).len() - tail.len()) =~= tail);
    if has_suffix(s, tail) {
        assert(s =~= s.take(s.len() - tail.len()) + s.skip(s.len() - tail.len()));
    }
    if has_suffix(tail, other) {
        assert((s + tail).skip((s + tail).len() - other.len()) =~= tail.skip(
            tail.len() - other.len(),
        ));
    }
}

} // verus!
