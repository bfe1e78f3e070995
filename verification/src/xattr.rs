//! The list of attribute names that ext4 hands out: names with a NUL behind
//! each.

use vstd::prelude::*;

use crate::ea::bytes_of;

verus! {

/// The first NUL at or behind `pos`, or the length where there is none.
pub open spec fn nul_from(b: Seq<u8>, pos: int) -> int
    decreases b.len() - pos,
{
    if pos >= b.len() {
        b.len() as int
    } else if b[pos] == 0 {
        pos
    } else {
        nul_from(b, pos + 1)
    }
}

/// Where the name that starts at `pos` ends: at its NUL, or, where no NUL
/// follows, at `n`.
pub open spec fn name_end(b: Seq<u8>, n: int, pos: int) -> int {
    if nul_from(b, pos) < b.len() {
        nul_from(b, pos)
    } else {
        n
    }
}

/// The names that start before `n`, from `pos` on. An empty name ends the list.
pub open spec fn names_from(b: Seq<u8>, n: int, pos: int) -> Seq<Seq<u8>>
    decreases
            if pos < n {
                n - pos
            } else {
                0
            },
{
    if pos < 0 || pos >= n {
        Seq::empty()
    } else {
        let end = name_end(b, n, pos);
        if end <= pos {
            Seq::empty()
        } else {
            seq![b.subrange(pos, end)] + names_from(b, n, end + 1)
        }
    }
}

/// The views of a list of byte strings.
pub open spec fn byte_views(list: Seq<Vec<u8>>) -> Seq<Seq<u8>> {
    list.map_values(|v: Vec<u8>| v@)
}

proof fn lemma_nul_from(b: Seq<u8>, pos: int)
    requires
        0 <= pos <= b.len(),
    ensures
        pos <= nul_from(b, pos) <= b.len(),
        nul_from(b, pos) < b.len() ==> b[nul_from(b, pos)] == 0,
        forall|k: int| pos <= k < nul_from(b, pos) ==> b[k] != 0,
    decreases b.len() - pos,
{
    if pos < b.len() && b[pos] != 0 {
        lemma_nul_from(b, pos + 1);
    }
}

pub(crate) fn find_nul(b: &[u8], pos: usize) -> (at: usize)
    requires
        pos <= b@.len(),
    ensures
        at == nul_from(b@, pos as int),
        pos <= at <= b@.len(),
{
    let mut at: usize = pos;
    while at < b.len() && b[at] != 0
        invariant
            pos <= at <= b@.len(),
            nul_from(b@, at as int) == nul_from(b@, pos as int),
        decreases b@.len() - at,
    {
        at = at + 1;
    }
    at
}

/// The attribute names in the first `n` bytes of a name list.
pub fn xattr_names(list: &[u8], n: usize) -> (out: Vec<Vec<u8>>)
    requires
        n <= list@.len(),
    ensures
        byte_views(out@) == names_from(list@, n as int, 0),
        forall|i: int| 0 <= i < out@.len() ==> !(#[trigger] out@[i])@.contains(0u8),
{
    let mut out: Vec<Vec<u8>> = Vec::new();
    let mut pos: usize = 0;
    proof {
        assert(byte_views(out@) + names_from(list@, n as int, 0) =~= names_from(
            list@,
            n as int,
            0,
        ));
    }
    while pos < n
        invariant_except_break
            byte_views(out@) + names_from(list@, n as int, pos as int) == names_from(
                list@,
                n as int,
                0,
            ),
        invariant
            n <= list@.len(),
            forall|i: int| 0 <= i < out@.len() ==> !(#[trigger] out@[i])@.contains(0u8),
        ensures
            byte_views(out@) == names_from(list@, n as int, 0),
        decreases list@.len() - pos,
    {
        let nul = find_nul(list, pos);
        proof {
            lemma_nul_from(list@, pos as int);
        }
        let end: usize = if nul < list.len() {
            nul
        } else {
            n
        };
        if end == pos {
            proof {
                assert(byte_views(out@) + Seq::empty() =~= byte_views(out@));
            }
            break;
        }
        let name = bytes_of(list, pos, end);
        let ghost before = byte_views(out@);
        let ghost rest = names_from(list@, n as int, end + 1);
        out.push(name);
        proof {
            assert(byte_views(out@) =~= before + seq![name@]);
            assert(before + (seq![name@] + rest) =~= byte_views(out@) + rest);
        }
        if end == list.len() {
            proof {
                assert(byte_views(out@) + Seq::empty() =~= byte_views(out@));
            }
            break;
        }
        pos = end + 1;
        proof {
            if pos >= n {
                assert(byte_views(out@) + Seq::empty() =~= byte_views(out@));
            }
        }
    }
    out
}

/// Names written with a NUL behind each.
pub open spec fn name_list(names: Seq<Seq<u8>>) -> Seq<u8>
    decreases names.len(),
{
    if names.len() == 0 {
        Seq::empty()
    } else {
        name_list(names.drop_last()) + names.last() + seq![0u8]
    }
}

proof fn lemma_name_list_push_front(first: Seq<u8>, rest: Seq<Seq<u8>>)
    ensures
        name_list(seq![first] + rest) == first + seq![0u8] + name_list(rest),
    decreases rest.len(),
{
    let all = seq![first] + rest;
    if rest.len() == 0 {
        reveal_with_fuel(name_list, 2);
        assert(all.drop_last() =~= Seq::empty());
        assert(name_list(all) =~= first + seq![0u8] + name_list(rest));
    } else {
        assert(all.drop_last() =~= seq![first] + rest.drop_last());
        lemma_name_list_push_front(first, rest.drop_last());
        assert(name_list(all) =~= first + seq![0u8] + name_list(rest));
    }
}

proof fn lemma_names_read_back(prefix: Seq<u8>, names: Seq<Seq<u8>>)
    requires
        forall|i: int|
            0 <= i < names.len() ==> (#[trigger] names[i]).len() > 0 && !names[i].contains(0u8),
    ensures
        ({
            let b = prefix + name_list(names);
            names_from(b, b.len() as int, prefix.len() as int) == names
        }),
    decreases names.len(),
{
    let b = prefix + name_list(names);
    let pos = prefix.len() as int;
    if names.len() > 0 {
        let first = names[0];
        let rest = names.skip(1);
        assert(names =~= seq![first] + rest);
        lemma_name_list_push_front(first, rest);
        let next = prefix + first + seq![0u8];
        assert(b =~= next + name_list(rest));
        assert forall|i: int| 0 <= i < rest.len() implies (#[trigger] rest[i]).len() > 0
            && !rest[i].contains(0u8) by {
            assert(rest[i] == names[i + 1]);
        }
        lemma_names_read_back(next, rest);
        let end = pos + first.len();
        lemma_nul_from(b, pos);
        assert(b[end] == 0);
        assert forall|k: int| pos <= k < end implies b[k] != 0 by {
            assert(b[k] == first[k - pos]);
        }
        assert(nul_from(b, pos) == end) by {
            if nul_from(b, pos) < end {
                assert(b[nul_from(b, pos)] == 0);
            }
        }
        assert(b.subrange(pos, end) =~= first);
        assert(names_from(b, b.len() as int, pos) =~= names);
    }
}

/// Reading a name list gives the names that it was written from.
pub proof fn law_names_round_trip(names: Seq<Seq<u8>>)
    requires
        forall|i: int|
            0 <= i < names.len() ==> (#[trigger] names[i]).len() > 0 && !names[i].contains(0u8),
    ensures
        names_from(name_list(names), name_list(names).len() as int, 0) == names,
{
    lemma_names_read_back(Seq::empty(), names);
    assert(Seq::<u8>::empty() + name_list(names) =~= name_list(names));
}

/// Where the first NUL stands.
pub(crate) proof fn lemma_nul_at(before: Seq<u8>, behind: Seq<u8>)
    requires
        !before.contains(0u8),
    ensures
        nul_from(before + seq![0u8] + behind, 0) == before.len(),
        nul_from(before, 0) == before.len(),
{
    let b = before + seq![0u8] + behind;
    lemma_nul_from(b, 0);
    lemma_nul_from(before, 0);
    let at = nul_from(b, 0);
    assert(b[before.len() as int] == 0);
    if at < before.len() {
        assert(b[at] == before[at]);
    }
    if nul_from(before, 0) < before.len() {
        assert(before.contains(before[nul_from(before, 0)]));
    }
}

#[verifier::rlimit(40)]
proof fn lemma_names_go_first(prefix: Seq<u8>, names: Seq<Seq<u8>>, tail: Seq<u8>, n: int)
    requires
        forall|i: int|
            0 <= i < names.len() ==> (#[trigger] names[i]).len() > 0 && !names[i].contains(0u8),
        prefix.len() + name_list(names).len() <= n,
    ensures
        ({
            let b = prefix + name_list(names) + tail;
            names_from(b, n, prefix.len() as int) == names + names_from(
                b,
                n,
                (prefix.len() + name_list(names).len()) as int,
            )
        }),
    decreases names.len(),
{
    let b = prefix + name_list(names) + tail;
    let pos = prefix.len() as int;
    if names.len() > 0 {
        let first = names[0];
        let rest = names.skip(1);
        assert(names =~= seq![first] + rest);
        lemma_name_list_push_front(first, rest);
        let next = prefix + first + seq![0u8];
        assert(b =~= next + name_list(rest) + tail);
        assert forall|i: int| 0 <= i < rest.len() implies (#[trigger] rest[i]).len() > 0
            && !rest[i].contains(0u8) by {
            assert(rest[i] == names[i + 1]);
        }
        lemma_names_go_first(next, rest, tail, n);
        let end = pos + first.len();
        lemma_nul_from(b, pos);
        assert(b[end] == 0);
        assert forall|k: int| pos <= k < end implies b[k] != 0 by {
            assert(b[k] == first[k - pos]);
        }
        assert(nul_from(b, pos) == end) by {
            if nul_from(b, pos) < end {
                assert(b[nul_from(b, pos)] == 0);
            }
        }
        assert(b.subrange(pos, end) =~= first);
        let last = names_from(b, n, (prefix.len() + name_list(names).len()) as int);
        assert(seq![first] + (rest + last) =~= names + last);
    } else {
        assert(names + names_from(b, n, pos) =~= names_from(b, n, pos));
    }
}

/// The names of a list are its names, whatever stands behind the bytes that
/// count. An empty name ends the list, a last name may do without its NUL, and
/// one that the count cuts short is read up to the NUL behind it all the same.
#[verifier::rlimit(40)]
pub proof fn law_name_lists_end_where_they_end(
    names: Seq<Seq<u8>>,
    tail: Seq<u8>,
    behind: Seq<u8>,
    cut: int,
)
    requires
        forall|i: int|
            0 <= i < names.len() ==> (#[trigger] names[i]).len() > 0 && !names[i].contains(0u8),
    ensures
        ({
            let list = name_list(names);
            &&& names_from(list + tail, list.len() as int, 0) == names
            &&& names_from(list + seq![0u8] + tail, (list.len() + 1 + tail.len()) as int, 0)
                == names
            &&& tail.len() > 0 && !tail.contains(0u8) ==> names_from(
                list + tail,
                (list.len() + tail.len()) as int,
                0,
            ) == names.push(tail)
            &&& 0 < cut <= tail.len() + 1 && tail.len() > 0 && !tail.contains(0u8) ==> names_from(
                list + tail + seq![0u8] + behind,
                list.len() + cut,
                0,
            ) == names.push(tail)
        }),
{
    let list = name_list(names);
    let none = Seq::<u8>::empty();
    lemma_names_go_first(none, names, tail, list.len() as int);
    assert(none + list + tail =~= list + tail);
    assert(names_from(list + tail, list.len() as int, 0) =~= names);
    let ended = list + seq![0u8] + tail;
    assert(none + list + (seq![0u8] + tail) =~= ended);
    lemma_names_go_first(none, names, seq![0u8] + tail, (list.len() + 1 + tail.len()) as int);
    assert(ended[list.len() as int] == 0);
    assert(names_from(ended, (list.len() + 1 + tail.len()) as int, 0) =~= names);
    if tail.len() > 0 && !tail.contains(0u8) {
        let b = list + tail;
        let at = list.len() as int;
        lemma_names_go_first(none, names, tail, b.len() as int);
        lemma_nul_from(b, at);
        if nul_from(b, at) < b.len() {
            assert(b[nul_from(b, at)] == tail[nul_from(b, at) - at]);
        }
        assert(b.subrange(at, b.len() as int) =~= tail);
        assert(names_from(b, b.len() as int, (b.len() + 1) as int) =~= Seq::empty());
        assert(names_from(b, b.len() as int, at) =~= seq![tail]);
        assert(names_from(b, b.len() as int, 0) =~= names.push(tail));
        let c = list + tail + seq![0u8] + behind;
        let n = list.len() + cut;
        if 0 < cut <= tail.len() + 1 {
            assert(none + list + (tail + seq![0u8] + behind) =~= c);
            lemma_names_go_first(none, names, tail + seq![0u8] + behind, n);
            lemma_nul_from(c, at);
            let end = at + tail.len();
            assert(c[end] == 0);
            assert(nul_from(c, at) == end) by {
                if nul_from(c, at) < end {
                    assert(c[nul_from(c, at)] == tail[nul_from(c, at) - at]);
                }
            }
            assert(c.subrange(at, end) =~= tail);
            assert(names_from(c, n, end + 1) =~= Seq::empty());
            assert(names_from(c, n, at) =~= seq![tail]);
            assert(names_from(c, n, 0) =~= names.push(tail));
        }
    }
}

/// A list of names is seen name by name.
pub proof fn law_name_lists_are_seen_as_they_are(list: Seq<Vec<u8>>, i: int)
    ensures
        byte_views(list).len() == list.len(),
        0 <= i < list.len() ==> byte_views(list)[i] == list[i]@,
{
}

}
