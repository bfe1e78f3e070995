//! The `verify-ls` command: does a directory hold what it should?

use vstd::prelude::*;

use crate::cmd::report::{call_failed, call_failure, RawEntry};
use crate::text::{
    chars_of, debug_str, debug_text, dec, dec_text, join, lossy_str, same_str, lossy_text, views,
};

verus! {

/// Whether `a` comes before `b` in the order of their characters, from
/// character `i` on.
pub open spec fn comes_before_at(a: Seq<char>, b: Seq<char>, i: int) -> bool
    decreases b.len() - i,
{
    if i >= b.len() {
        false
    } else if i >= a.len() {
        true
    } else if a[i] != b[i] {
        a[i] < b[i]
    } else {
        comes_before_at(a, b, i + 1)
    }
}

/// Whether `a` comes before `b` in the order of their characters.
pub open spec fn comes_before(a: Seq<char>, b: Seq<char>) -> bool {
    comes_before_at(a, b, 0)
}

/// Whether a list is in order, without repetitions.
pub open spec fn in_order(list: Seq<Seq<char>>) -> bool {
    forall|i: int, j: int| 0 <= i < j < list.len() ==> comes_before(list[i], list[j])
}

/// Whether a list holds exactly the members of a set, in order.
pub open spec fn lists(list: Seq<Seq<char>>, set: Set<Seq<char>>) -> bool {
    &&& in_order(list)
    &&& forall|x: Seq<char>| list.contains(x) <==> #[trigger] set.contains(x)
}

/// The members of a set in order.
pub open spec fn listed(set: Set<Seq<char>>) -> Seq<Seq<char>> {
    choose|list: Seq<Seq<char>>| lists(list, set)
}

/// The members of `a` that are not in `b`.
pub open spec fn only_in(a: Seq<Seq<char>>, b: Seq<Seq<char>>) -> Set<Seq<char>> {
    a.to_set().difference(b.to_set())
}

proof fn lemma_trichotomy(a: Seq<char>, b: Seq<char>, i: int)
    requires
        0 <= i <= a.len(),
        i <= b.len(),
        a.take(i) == b.take(i),
    ensures
        a == b ==> !comes_before_at(a, b, i) && !comes_before_at(b, a, i),
        a != b ==> comes_before_at(a, b, i) != comes_before_at(b, a, i),
    decreases a.len() + b.len() - 2 * i,
{
    if i < a.len() && i < b.len() {
        if a[i] == b[i] {
            assert(a.take(i + 1) =~= a.take(i).push(a[i]));
            assert(b.take(i + 1) =~= b.take(i).push(b[i]));
            lemma_trichotomy(a, b, i + 1);
        }
    } else if i >= a.len() && i >= b.len() {
        assert(a =~= a.take(i));
        assert(b =~= b.take(i));
    }
}

proof fn lemma_transitive(a: Seq<char>, b: Seq<char>, c: Seq<char>, i: int)
    requires
        0 <= i,
        comes_before_at(a, b, i),
        comes_before_at(b, c, i),
    ensures
        comes_before_at(a, c, i),
    decreases b.len() - i,
{
    if i < a.len() && i < b.len() && i < c.len() && a[i] == b[i] && b[i] == c[i] {
        lemma_transitive(a, b, c, i + 1);
    }
}

/// Of two texts that differ, exactly one comes before the other; none comes
/// before itself.
pub proof fn law_order_is_total(a: Seq<char>, b: Seq<char>)
    ensures
        a == b ==> !comes_before(a, b) && !comes_before(b, a),
        a != b ==> comes_before(a, b) != comes_before(b, a),
{
    assert(a.take(0) =~= b.take(0));
    lemma_trichotomy(a, b, 0);
}

/// The order of texts is transitive.
pub proof fn law_order_is_transitive(a: Seq<char>, b: Seq<char>, c: Seq<char>)
    requires
        comes_before(a, b),
        comes_before(b, c),
    ensures
        comes_before(a, c),
{
    lemma_transitive(a, b, c, 0);
}

proof fn lemma_same_list(a: Seq<Seq<char>>, b: Seq<Seq<char>>)
    requires
        in_order(a),
        in_order(b),
        forall|x: Seq<char>| a.contains(x) <==> #[trigger] b.contains(x),
    ensures
        a == b,
    decreases a.len(),
{
    if a.len() == 0 {
        if b.len() > 0 {
            assert(b.contains(b[0]));
            assert(a.contains(b[0]));
        }
        assert(a =~= b);
    } else {
        assert(a.contains(a[0]));
        assert(b.contains(a[0]));
        let j = choose|j: int| 0 <= j < b.len() && b[j] == a[0];
        if j > 0 {
            assert(b.contains(b[0]));
            assert(a.contains(b[0]));
            let i = choose|i: int| 0 <= i < a.len() && a[i] == b[0];
            assert(comes_before(b[0], b[j]));
            law_order_is_total(a[0], b[0]);
            if i > 0 {
                assert(comes_before(a[0], a[i]));
            }
        }
        let ra = a.skip(1);
        let rb = b.skip(1);
        assert(in_order(ra)) by {
            assert forall|i: int, j: int| 0 <= i < j < ra.len() implies comes_before(
                ra[i],
                ra[j],
            ) by {
                assert(comes_before(a[i + 1], a[j + 1]));
            }
        }
        assert(in_order(rb)) by {
            assert forall|i: int, j: int| 0 <= i < j < rb.len() implies comes_before(
                rb[i],
                rb[j],
            ) by {
                assert(comes_before(b[i + 1], b[j + 1]));
            }
        }
        assert forall|x: Seq<char>| ra.contains(x) <==> #[trigger] rb.contains(x) by {
            law_order_is_total(x, a[0]);
            if ra.contains(x) {
                let i = choose|i: int| 0 <= i < ra.len() && ra[i] == x;
                assert(a[i + 1] == x);
                assert(a.contains(x));
                assert(b.contains(x));
                let k = choose|k: int| 0 <= k < b.len() && b[k] == x;
                assert(comes_before(a[0], a[i + 1]));
                assert(k > 0);
                assert(rb[k - 1] == x);
            }
            if rb.contains(x) {
                let i = choose|i: int| 0 <= i < rb.len() && rb[i] == x;
                assert(b[i + 1] == x);
                assert(b.contains(x));
                assert(a.contains(x));
                let k = choose|k: int| 0 <= k < a.len() && a[k] == x;
                assert(comes_before(b[0], b[i + 1]));
                assert(k > 0);
                assert(ra[k - 1] == x);
            }
        }
        lemma_same_list(ra, rb);
        assert(a =~= seq![a[0]] + ra);
        assert(b =~= seq![b[0]] + rb);
    }
}

/// The ordered list of a set is the only one.
pub proof fn law_listing_is_unique(list: Seq<Seq<char>>, set: Set<Seq<char>>)
    requires
        lists(list, set),
    ensures
        list == listed(set),
{
    let other = listed(set);
    assert(lists(other, set));
    assert forall|x: Seq<char>| list.contains(x) <==> #[trigger] other.contains(x) by {
        assert(set.contains(x) <==> list.contains(x));
    }
    lemma_same_list(list, other);
}

fn before(a: &str, b: &str) -> (out: bool)
    ensures
        out == comes_before(a@, b@),
{
    let x = chars_of(a);
    let y = chars_of(b);
    let mut i: usize = 0;
    while i < x.len() && i < y.len() && x[i] == y[i]
        invariant
            x@ == a@,
            y@ == b@,
            i <= x@.len(),
            i <= y@.len(),
            comes_before_at(a@, b@, i as int) == comes_before(a@, b@),
        decreases x@.len() - i,
    {
        i = i + 1;
    }
    if i >= y.len() {
        false
    } else if i >= x.len() {
        true
    } else {
        x[i] < y[i]
    }
}

fn holds(list: &[String], name: &str) -> (found: bool)
    ensures
        found == views(list@).contains(name@),
{
    for i in 0..list.len()
        invariant
            forall|k: int| 0 <= k < i ==> (#[trigger] list@[k])@ != name@,
    {
        if same_str(list[i].as_str(), name) {
            proof {
                assert(views(list@)[i as int] == name@);
            }
            return true;
        }
    }
    proof {
        assert forall|k: int| 0 <= k < views(list@).len() implies views(list@)[k] != name@ by {
            assert(list@[k]@ != name@);
        }
    }
    false
}

/// Puts a name into its place in an ordered list, where it is not yet there.
fn put_in_order(list: &mut Vec<String>, name: &str)
    requires
        in_order(views(old(list)@)),
    ensures
        in_order(views(final(list)@)),
        forall|x: Seq<char>|
            #[trigger] views(final(list)@).contains(x) <==> views(old(list)@).contains(x) || x
                == name@,
{
    let ghost start = views(list@);
    let mut at: usize = 0;
    while at < list.len() && before(list[at].as_str(), name)
        invariant
            start == views(list@),
            at <= list@.len(),
            forall|k: int| 0 <= k < at ==> comes_before(#[trigger] start[k], name@),
        decreases list@.len() - at,
    {
        at = at + 1;
    }
    if at < list.len() && same_str(list[at].as_str(), name) {
        proof {
            assert(start[at as int] == name@);
            assert(start.contains(name@));
        }
        return;
    }
    let ghost p = at as int;
    list.insert(at, name.to_owned());
    proof {
        let now = views(list@);
        assert(now =~= start.insert(p, name@));
        assert forall|i: int, j: int| 0 <= i < j < now.len() implies comes_before(
            now[i],
            now[j],
        ) by {
            if p < start.len() {
                law_order_is_total(start[p], name@);
            }
            if i == p {
                assert(now[j] == start[j - 1]);
                if j - 1 > p {
                    assert(comes_before(start[p], start[j - 1]));
                    law_order_is_transitive(name@, start[p], start[j - 1]);
                }
            } else if j == p {
                assert(now[i] == start[i]);
            } else {
                let a = if i < p {
                    i
                } else {
                    i - 1
                };
                let b = if j < p {
                    j
                } else {
                    j - 1
                };
                assert(now[i] == start[a] && now[j] == start[b]);
                assert(comes_before(start[a], start[b]));
            }
        }
        assert forall|x: Seq<char>| #[trigger] now.contains(x) <==> start.contains(x) || x
            == name@ by {
            if now.contains(x) {
                let k = choose|k: int| 0 <= k < now.len() && now[k] == x;
                if k < p {
                    assert(start[k] == x);
                } else if k > p {
                    assert(start[k - 1] == x);
                }
            }
            if start.contains(x) {
                let k = choose|k: int| 0 <= k < start.len() && start[k] == x;
                if k < p {
                    assert(now[k] == x);
                } else {
                    assert(now[k + 1] == x);
                }
            }
            assert(now[p] == name@);
        }
    }
}

/// The names of `a` that are not in `b`, in order.
fn difference(a: &[String], b: &[String]) -> (out: Vec<String>)
    ensures
        views(out@) == listed(only_in(views(a@), views(b@))),
{
    let mut out: Vec<String> = Vec::new();
    for i in 0..a.len()
        invariant
            in_order(views(out@)),
            forall|x: Seq<char>|
                #[trigger] views(out@).contains(x) <==> views(a@.take(i as int)).contains(x)
                    && !views(b@).contains(x),
    {
        let name = a[i].as_str();
        let ghost prior = views(a@.take(i as int));
        let ghost next = views(a@.take(i + 1));
        proof {
            assert(next =~= prior.push(name@));
            assert forall|x: Seq<char>| #[trigger] next.contains(x) <==> prior.contains(x) || x
                == name@ by {
                if next.contains(x) {
                    let k = choose|k: int| 0 <= k < next.len() && next[k] == x;
                    if k < prior.len() {
                        assert(prior[k] == x);
                    }
                }
                if prior.contains(x) {
                    let k = choose|k: int| 0 <= k < prior.len() && prior[k] == x;
                    assert(next[k] == x);
                }
                assert(next[prior.len() as int] == name@);
            }
        }
        if !holds(b, name) {
            put_in_order(&mut out, name);
        }
    }
    proof {
        assert(a@.take(a@.len() as int) =~= a@);
        let set = only_in(views(a@), views(b@));
        assert forall|x: Seq<char>| views(out@).contains(x) <==> #[trigger] set.contains(x) by {
            assert(views(a@).to_set().contains(x) <==> views(a@).contains(x));
            assert(views(b@).to_set().contains(x) <==> views(b@).contains(x));
        }
        law_listing_is_unique(views(out@), set);
    }
    out
}

/// A list of names as std's debug form shows it.
pub open spec fn names_text(names: Seq<Seq<char>>) -> Seq<char> {
    "["@ + join(names.map_values(|n: Seq<char>| debug_text(n)), ", "@) + "]"@
}

fn joined(items: &[String], sep: &str) -> (out: String)
    ensures
        out@ == join(views(items@), sep@),
{
    let mut out = String::new();
    for i in 0..items.len()
        invariant
            out@ == join(views(items@).take(i as int), sep@),
    {
        let ghost all = views(items@);
        proof {
            assert(all.take(i + 1).drop_last() =~= all.take(i as int));
            assert(all.take(i + 1).last() == items@[i as int]@);
        }
        if i > 0 {
            out.append(sep);
        }
        out.append(items[i].as_str());
        proof {
            if i == 0 {
                assert(out@ =~= items@[0]@);
                assert(all.take(1)[0] == items@[0]@);
            }
        }
    }
    proof {
        assert(views(items@).take(items@.len() as int) =~= views(items@));
    }
    out
}

fn shown(names: &[String]) -> (out: String)
    ensures
        out@ == names_text(views(names@)),
{
    let mut quoted: Vec<String> = Vec::new();
    for i in 0..names.len()
        invariant
            quoted@.len() == i,
            forall|k: int| 0 <= k < i ==> (#[trigger] quoted@[k])@ == debug_text(names@[k]@),
    {
        quoted.push(debug_str(names[i].as_str()));
    }
    proof {
        assert(views(quoted@) =~= views(names@).map_values(|n: Seq<char>| debug_text(n)));
    }
    let mut out = "[".to_owned();
    out.append(joined(quoted.as_slice(), ", ").as_str());
    out.append("]");
    out
}

/// What is wrong with the names, or `None` where they are those expected. No
/// expectation is always met.
pub open spec fn name_drift(path: Seq<char>, got: Seq<Seq<char>>, want: Seq<Seq<char>>) -> Option<
    Seq<char>,
> {
    let missing = listed(only_in(want, got));
    let extra = listed(only_in(got, want));
    if want.len() == 0 || (missing.len() == 0 && extra.len() == 0) {
        None
    } else {
        Some(
            "name-set drift at "@ + path + ":"@ + (if missing.len() > 0 {
                "\n  missing: "@ + names_text(missing)
            } else {
                ""@
            }) + (if extra.len() > 0 {
                "\n  unexpected: "@ + names_text(extra)
            } else {
                ""@
            }),
        )
    }
}

/// What is wrong with the number of entries, or `None`.
pub open spec fn count_drift(path: Seq<char>, got: nat, want: Option<usize>) -> Option<Seq<char>> {
    match want {
        Some(n) => if got != n {
            Some("count mismatch at "@ + path + ": got="@ + dec(got) + " want="@ + dec(n as nat))
        } else {
            None
        },
        None => None,
    }
}

/// All that is wrong, in one line each.
pub open spec fn drifts(
    path: Seq<char>,
    got: Seq<Seq<char>>,
    want: Seq<Seq<char>>,
    want_count: Option<usize>,
) -> Seq<Seq<char>> {
    let names = match name_drift(path, got, want) {
        Some(e) => seq![e],
        None => Seq::empty(),
    };
    match count_drift(path, got.len(), want_count) {
        Some(e) => names.push(e),
        None => names,
    }
}

/// The names of a listing.
pub open spec fn entry_names(entries: Seq<RawEntry>) -> Seq<Seq<char>> {
    entries.map_values(|e: RawEntry| lossy_text(e.name@))
}

fn names_of(entries: &[RawEntry]) -> (out: Vec<String>)
    ensures
        views(out@) == entry_names(entries@),
{
    let mut out: Vec<String> = Vec::new();
    for i in 0..entries.len()
        invariant
            out@.len() == i,
            forall|k: int| 0 <= k < i ==> (#[trigger] out@[k])@ == lossy_text(entries@[k].name@),
    {
        out.push(lossy_str(entries[i].name.as_slice()));
    }
    proof {
        assert(views(out@) =~= entry_names(entries@));
    }
    out
}

fn name_problem(path: &str, got: &[String], want: &[String]) -> (out: Option<String>)
    ensures
        match name_drift(path@, views(got@), views(want@)) {
            Some(e) => out matches Some(s) && s@ == e,
            None => out is None,
        },
{
    if want.len() == 0 {
        return None;
    }
    let missing = difference(want, got);
    let extra = difference(got, want);
    if missing.len() == 0 && extra.len() == 0 {
        return None;
    }
    let mut msg = "name-set drift at ".to_owned();
    msg.append(path);
    msg.append(":");
    if missing.len() > 0 {
        let mut part = "\n  missing: ".to_owned();
        part.append(shown(missing.as_slice()).as_str());
        msg.append(part.as_str());
    } else {
        msg.append("");
    }
    if extra.len() > 0 {
        let mut part = "\n  unexpected: ".to_owned();
        part.append(shown(extra.as_slice()).as_str());
        msg.append(part.as_str());
    } else {
        msg.append("");
    }
    Some(msg)
}

/// Compares the entries of a directory with the names and the number that are
/// expected of it. It fails with all that is wrong.
pub fn verify_ls(
    path: &str,
    listing: Option<&[RawEntry]>,
    expect: &[String],
    expect_count: Option<usize>,
    reason: &str,
) -> (out: Result<(), String>)
    ensures
        match listing {
            None => out matches Err(e) && e@ == call_failure("dir_open"@, path@, reason@),
            Some(entries) => {
                let wrong = drifts(path@, entry_names(entries@), views(expect@), expect_count);
                if wrong.len() == 0 {
                    out is Ok
                } else {
                    out matches Err(e) && e@ == "verify-ls "@ + join(wrong, " / "@)
                }
            },
        },
{
    let entries = match listing {
        None => {
            return Err(call_failed("dir_open", path, reason));
        },
        Some(entries) => entries,
    };
    let got = names_of(entries);
    let mut errs: Vec<String> = Vec::new();
    proof {
        assert(views(errs@) =~= Seq::empty());
    }
    if let Some(e) = name_problem(path, got.as_slice(), expect) {
        errs.push(e);
    }
    let ghost names = match name_drift(path@, views(got@), views(expect@)) {
        Some(e) => seq![e],
        None => Seq::empty(),
    };
    proof {
        assert(views(errs@) =~= names);
    }
    if let Some(want) = expect_count {
        if got.len() != want {
            let mut e = "count mismatch at ".to_owned();
            e.append(path);
            e.append(": got=");
            e.append(dec_text(got.len() as u64).as_str());
            e.append(" want=");
            e.append(dec_text(want as u64).as_str());
            let ghost prior = errs@;
            errs.push(e);
            proof {
                assert(views(errs@) =~= views(prior).push(e@));
            }
        }
    }
    proof {
        assert(views(got@).len() == got@.len());
        assert(views(errs@) == drifts(
            path@,
            entry_names(entries@),
            views(expect@),
            expect_count,
        ));
        assert(views(errs@).len() == errs@.len());
    }
    if errs.len() == 0 {
        return Ok(());
    }
    let mut e = "verify-ls ".to_owned();
    e.append(joined(errs.as_slice(), " / ").as_str());
    Err(e)
}

proof fn ordered_insert(list: Seq<Seq<char>>, name: Seq<char>) -> (out: Seq<Seq<char>>)
    requires
        in_order(list),
    ensures
        in_order(out),
        forall|x: Seq<char>| #[trigger] out.contains(x) <==> list.contains(x) || x == name,
    decreases list.len(),
{
    let rest = list.drop_last();
    let last = list.last();
    law_order_is_total(name, last);
    let behind = list.len() == 0 || comes_before(last, name);
    let head = if behind {
        list
    } else if name == last {
        rest
    } else {
        ordered_insert(rest, name)
    };
    let tail = if behind {
        name
    } else {
        last
    };
    let out = head.push(tail);
    assert forall|i: int, j: int| 0 <= i < j < out.len() implies comes_before(out[i], out[j]) by {
        if j == head.len() {
            if behind {
                if i < list.len() - 1 {
                    assert(comes_before(list[i], list[list.len() - 1]));
                    law_order_is_transitive(list[i], last, name);
                }
            } else {
                assert(head.contains(head[i]));
                if head[i] != name {
                    assert(rest.contains(head[i]));
                    let k = choose|k: int| 0 <= k < rest.len() && rest[k] == head[i];
                    assert(comes_before(list[k], list[list.len() - 1]));
                }
            }
        }
    }
    assert forall|x: Seq<char>| #[trigger] out.contains(x) <==> list.contains(x) || x == name by {
        lemma_contains_push(head, tail, x);
        if list.len() > 0 {
            lemma_contains_push(rest, last, x);
            assert(rest.push(last) =~= list);
        }
    }
    out
}

proof fn lemma_contains_push(s: Seq<Seq<char>>, a: Seq<char>, x: Seq<char>)
    ensures
        s.push(a).contains(x) <==> s.contains(x) || x == a,
{
    if s.push(a).contains(x) {
        let k = choose|k: int| 0 <= k < s.push(a).len() && s.push(a)[k] == x;
        if k < s.len() {
            assert(s[k] == x);
        }
    }
    if s.contains(x) {
        let k = choose|k: int| 0 <= k < s.len() && s[k] == x;
        assert(s.push(a)[k] == x);
    }
    assert(s.push(a)[s.len() as int] == a);
}

proof fn difference_listed(a: Seq<Seq<char>>, b: Seq<Seq<char>>) -> (out: Seq<Seq<char>>)
    ensures
        in_order(out),
        forall|x: Seq<char>| #[trigger] out.contains(x) <==> a.contains(x) && !b.contains(x),
    decreases a.len(),
{
    let out = if a.len() == 0 {
        Seq::empty()
    } else if b.contains(a.last()) {
        difference_listed(a.drop_last(), b)
    } else {
        let rest = difference_listed(a.drop_last(), b);
        ordered_insert(rest, a.last())
    };
    if a.len() > 0 {
        assert forall|x: Seq<char>| #[trigger] out.contains(x) <==> a.contains(x) && !b.contains(
            x,
        ) by {
            lemma_contains_push(a.drop_last(), a.last(), x);
            assert(a.drop_last().push(a.last()) =~= a);
        }
    }
    out
}

/// Names agree exactly where they are the same set: order and repetitions on
/// either side do not matter.
pub proof fn law_verify_compares_sets(
    path: Seq<char>,
    got: Seq<Seq<char>>,
    want: Seq<Seq<char>>,
)
    requires
        want.len() > 0,
    ensures
        name_drift(path, got, want) is None <==> (forall|x: Seq<char>|
            got.contains(x) <==> #[trigger] want.contains(x)),
{
    let missing = difference_listed(want, got);
    let extra = difference_listed(got, want);
    assert forall|x: Seq<char>| missing.contains(x) <==> #[trigger] only_in(want, got).contains(
        x,
    ) by {
        assert(want.to_set().contains(x) <==> want.contains(x));
        assert(got.to_set().contains(x) <==> got.contains(x));
    }
    assert forall|x: Seq<char>| extra.contains(x) <==> #[trigger] only_in(got, want).contains(
        x,
    ) by {
        assert(want.to_set().contains(x) <==> want.contains(x));
        assert(got.to_set().contains(x) <==> got.contains(x));
    }
    law_listing_is_unique(missing, only_in(want, got));
    law_listing_is_unique(extra, only_in(got, want));
    if missing.len() == 0 && extra.len() == 0 {
        assert forall|x: Seq<char>| got.contains(x) <==> #[trigger] want.contains(x) by {
            assert(!missing.contains(x) && !extra.contains(x));
        }
    } else if missing.len() > 0 {
        assert(missing.contains(missing[0]));
        assert(want.contains(missing[0]));
    } else {
        assert(extra.contains(extra[0]));
        assert(!want.contains(extra[0]));
    }
}

proof fn lemma_same_so_far(a: Seq<char>, b: Seq<char>, i: int, k: int)
    requires
        0 <= i <= k,
        k <= a.len(),
        k <= b.len(),
        forall|j: int| 0 <= j < k ==> a[j] == b[j],
    ensures
        comes_before_at(a, b, i) == comes_before_at(a, b, k),
    decreases k - i,
{
    if i < k {
        lemma_same_so_far(a, b, i + 1, k);
    }
}

/// Texts are ordered by the first character in which they differ, and the
/// beginning of a text comes before it.
#[verifier::rlimit(40)]
pub proof fn law_order_is_by_the_first_difference(
    common: Seq<char>,
    x: char,
    y: char,
    a: Seq<char>,
    b: Seq<char>,
)
    ensures
        x < y ==> comes_before(common + seq![x] + a, common + seq![y] + b) && !comes_before(
            common + seq![y] + b,
            common + seq![x] + a,
        ),
        comes_before(common, common + seq![x] + a),
        !comes_before(common + seq![x] + a, common),
        !comes_before(common, common),
{
    let k = common.len() as int;
    let p = common + seq![x] + a;
    let q = common + seq![y] + b;
    assert(p[k] == x && q[k] == y);
    lemma_same_so_far(p, q, 0, k);
    lemma_same_so_far(q, p, 0, k);
    lemma_same_so_far(common, p, 0, k);
    lemma_same_so_far(p, common, 0, k);
    lemma_same_so_far(common, common, 0, k);
}

/// What is said of the names: those that were wanted and are missing, and those
/// that are there unwanted, each list in order and without repetitions, and
/// nothing where none was wanted.
#[verifier::rlimit(40)]
pub proof fn law_drift_tells_the_difference(
    path: Seq<char>,
    got: Seq<Seq<char>>,
    want: Seq<Seq<char>>,
    x: Seq<char>,
)
    ensures
        ({
            let missing = listed(only_in(want, got));
            let extra = listed(only_in(got, want));
            let head = "name-set drift at "@ + path + ":"@;
            let a = "\n  missing: "@ + names_text(missing);
            let b = "\n  unexpected: "@ + names_text(extra);
            &&& in_order(missing)
            &&& in_order(extra)
            &&& missing.contains(x) <==> want.contains(x) && !got.contains(x)
            &&& extra.contains(x) <==> got.contains(x) && !want.contains(x)
            &&& want.len() == 0 ==> name_drift(path, got, want) is None
            &&& want.len() > 0 && missing.len() > 0 && extra.len() > 0 ==> name_drift(
                path,
                got,
                want,
            ) == Some(head + a + b)
            &&& want.len() > 0 && missing.len() > 0 && extra.len() == 0 ==> name_drift(
                path,
                got,
                want,
            ) == Some(head + a)
            &&& want.len() > 0 && missing.len() == 0 && extra.len() > 0 ==> name_drift(
                path,
                got,
                want,
            ) == Some(head + b)
        }),
{
    reveal_strlit("");
    lemma_listed_difference(want, got, x);
    lemma_listed_difference(got, want, x);
    let missing = listed(only_in(want, got));
    let extra = listed(only_in(got, want));
    let head = "name-set drift at "@ + path + ":"@;
    let a = "\n  missing: "@ + names_text(missing);
    let b = "\n  unexpected: "@ + names_text(extra);
    assert(head + a + ""@ =~= head + a);
    assert(head + ""@ + b =~= head + b);
}

proof fn lemma_listed_difference(a: Seq<Seq<char>>, b: Seq<Seq<char>>, x: Seq<char>)
    ensures
        in_order(listed(only_in(a, b))),
        listed(only_in(a, b)).contains(x) <==> a.contains(x) && !b.contains(x),
{
    let list = difference_listed(a, b);
    assert forall|y: Seq<char>| list.contains(y) <==> #[trigger] only_in(a, b).contains(y) by {
        assert(a.to_set().contains(y) <==> a.contains(y));
        assert(b.to_set().contains(y) <==> b.contains(y));
    }
    law_listing_is_unique(list, only_in(a, b));
    assert(only_in(a, b).contains(x) <==> list.contains(x));
}

/// A listing passes exactly where its names are the wanted ones, where any are
/// wanted, and its number of entries is the wanted one, where one is. Both
/// complaints are made where both are due, that on the names first.
#[verifier::rlimit(40)]
pub proof fn law_listings_pass_or_drift(
    path: Seq<char>,
    got: Seq<Seq<char>>,
    want: Seq<Seq<char>>,
    want_count: Option<usize>,
)
    ensures
        drifts(path, got, want, want_count).len() == 0 <==> {
            &&& want.len() == 0 || (forall|x: Seq<char>|
                got.contains(x) <==> #[trigger] want.contains(x))
            &&& want_count is None || want_count->0 == got.len()
        },
        want_count is Some && want_count->0 != got.len() ==> drifts(
            path,
            got,
            want,
            want_count,
        ).last() == "count mismatch at "@ + path + ": got="@ + dec(got.len()) + " want="@ + dec(
            want_count->0 as nat,
        ),
        name_drift(path, got, want) matches Some(e) ==> drifts(path, got, want, want_count).len()
            > 0 && drifts(path, got, want, want_count)[0] == e,
        drifts(path, got, want, want_count).len() == (if name_drift(path, got, want) is Some {
            1int
        } else {
            0
        }) + if want_count is Some && want_count->0 != got.len() {
            1int
        } else {
            0
        },
{
    if want.len() > 0 {
        law_verify_compares_sets(path, got, want);
    }
}

/// The names of a listing are those of its entries, each in its place, and a
/// list of names is shown quoted, in brackets and with commas.
pub proof fn law_names_are_those_of_the_entries(
    entries: Seq<RawEntry>,
    i: int,
    names: Seq<Seq<char>>,
)
    ensures
        entry_names(entries).len() == entries.len(),
        0 <= i < entries.len() ==> entry_names(entries)[i] == lossy_text(entries[i].name@),
        names_text(names) == seq!['['] + join(
            names.map_values(|n: Seq<char>| debug_text(n)),
            seq![',', ' '],
        ) + seq![']'],
{
    reveal_strlit("[");
    reveal_strlit("]");
    reveal_strlit(", ");
    assert("["@ =~= seq!['[']);
    assert("]"@ =~= seq![']']);
    assert(", "@ =~= seq![',', ' ']);
}

}
