//! Paths inside a volume: slash-separated, rooted at `/`.

use vstd::prelude::*;
use vstd::slice::slice_subrange;

use crate::text::{chars_of, string_of};
use crate::utf16::wide_str;

verus! {

/// A Windows path in the form that ext4 uses. The empty path is the root.
pub open spec fn unix_form(s: Seq<char>) -> Seq<char> {
    if s.len() == 0 {
        "/"@
    } else {
        s.map_values(
            |c: char|
                if c == '\\' {
                    '/'
                } else {
                    c
                },
        )
    }
}

/// The index of the last slash, or -1.
pub open spec fn last_slash(s: Seq<char>) -> int
    decreases s.len(),
{
    if s.len() == 0 {
        -1
    } else if s.last() == '/' {
        s.len() - 1
    } else {
        last_slash(s.drop_last())
    }
}

/// `s` without the slashes at its end.
pub open spec fn trimmed(s: Seq<char>) -> Seq<char>
    decreases s.len(),
{
    if s.len() > 0 && s.last() == '/' {
        trimmed(s.drop_last())
    } else {
        s
    }
}

/// Whether a path starts at the root.
pub open spec fn absolute(s: Seq<char>) -> bool {
    s.len() > 0 && s[0] == '/'
}

/// Where a symbolic link at `link` with the given target leads: an absolute
/// target as it stands, any other one from the directory that holds the link.
pub open spec fn link_leads_to(link: Seq<char>, target: Seq<char>) -> Seq<char> {
    if absolute(target) {
        target
    } else {
        let parent = if last_slash(link) >= 0 {
            link.take(last_slash(link))
        } else {
            "/"@
        };
        trimmed(parent) + "/"@ + target
    }
}

/// The path of `name` in `dir`.
pub open spec fn child_of(dir: Seq<char>, name: Seq<char>) -> Seq<char> {
    if dir == "/"@ {
        "/"@ + name
    } else {
        dir + "/"@ + name
    }
}

/// The path of `name` in a `dir` that may end in a slash.
pub open spec fn below(dir: Seq<char>, name: Seq<char>) -> Seq<char> {
    if dir.len() > 0 && dir.last() == '/' {
        dir + name
    } else {
        dir + "/"@ + name
    }
}

/// The directory that holds `dir`; the root holds itself.
pub open spec fn parent_of(dir: Seq<char>) -> Seq<char> {
    if last_slash(dir) <= 0 {
        "/"@
    } else {
        dir.take(last_slash(dir))
    }
}

proof fn lemma_last_slash(s: Seq<char>)
    ensures
        -1 <= last_slash(s) < s.len(),
        last_slash(s) >= 0 ==> s[last_slash(s)] == '/',
        forall|k: int| last_slash(s) < k < s.len() ==> s[k] != '/',
    decreases s.len(),
{
    if s.len() > 0 && s.last() != '/' {
        lemma_last_slash(s.drop_last());
        assert forall|k: int| last_slash(s) < k < s.len() implies s[k] != '/' by {
            if k < s.len() - 1 {
                assert(s[k] == s.drop_last()[k]);
            }
        }
    }
}

/// `\foo\bar` as UTF-16 becomes `/foo/bar`; the empty path becomes `/`.
/// `None` where the units are not valid UTF-16.
pub fn winpath_to_unix(name: &[u16]) -> (out: Option<String>)
    ensures
        out is Some <==> crate::utf16::valid16(name@),
        out matches Some(s) ==> s@ == unix_form(crate::utf16::decode16(name@)),
{
    match wide_str(name) {
        None => None,
        Some(s) => Some(unix_text(s.as_str())),
    }
}

/// A decoded Windows path in the form that ext4 uses.
pub fn unix_text(s: &str) -> (out: String)
    ensures
        out@ == unix_form(s@),
{
    let chars = chars_of(s);
    if chars.len() == 0 {
        return "/".to_owned();
    }
    let mut out = String::new();
    for i in 0..chars.len()
        invariant
            chars@ == s@,
            s@.len() > 0,
            out@ == unix_form(s@).take(i as int),
    {
        let c = chars[i];
        if c == '\\' {
            out.push('/');
        } else {
            out.push(c);
        }
        proof {
            assert(out@ =~= unix_form(s@).take(i + 1));
        }
    }
    proof {
        assert(unix_form(s@).take(s@.len() as int) =~= unix_form(s@));
    }
    out
}

fn find_last_slash(chars: &Vec<char>) -> (at: Option<usize>)
    ensures
        match at {
            Some(i) => i == last_slash(chars@) && i < chars@.len(),
            None => last_slash(chars@) == -1,
        },
{
    let mut n: usize = chars.len();
    proof {
        assert(chars@.take(n as int) =~= chars@);
    }
    while n > 0
        invariant
            n <= chars@.len(),
            last_slash(chars@.take(n as int)) == last_slash(chars@),
        decreases n,
    {
        if chars[n - 1] == '/' {
            proof {
                assert(chars@.take(n as int).last() == '/');
            }
            return Some(n - 1);
        }
        proof {
            assert(chars@.take(n as int).drop_last() =~= chars@.take(n - 1));
        }
        n = n - 1;
    }
    None
}

fn trimmed_len(chars: &Vec<char>, len: usize) -> (n: usize)
    requires
        len <= chars@.len(),
    ensures
        n <= len,
        chars@.take(n as int) == trimmed(chars@.take(len as int)),
{
    let mut n: usize = len;
    while n > 0 && chars[n - 1] == '/'
        invariant
            n <= len <= chars@.len(),
            trimmed(chars@.take(n as int)) == trimmed(chars@.take(len as int)),
        decreases n,
    {
        proof {
            assert(chars@.take(n as int).drop_last() =~= chars@.take(n - 1));
        }
        n = n - 1;
    }
    n
}

/// Where a symbolic link at `link` with the given target leads.
pub fn follow_link(link: &str, target: &str) -> (out: String)
    ensures
        out@ == link_leads_to(link@, target@),
{
    let goal = chars_of(target);
    if goal.len() > 0 && goal[0] == '/' {
        return target.to_owned();
    }
    let chars = chars_of(link);
    let mut out = match find_last_slash(&chars) {
        Some(at) => {
            let n = trimmed_len(&chars, at);
            string_of(slice_subrange(chars.as_slice(), 0, n))
        },
        None => {
            proof {
                reveal_strlit("/");
                reveal_with_fuel(trimmed, 2);
                assert("/"@.drop_last() =~= Seq::empty());
            }
            String::new()
        },
    };
    out.append("/");
    out.append(target);
    out
}

/// The path of `name` in the directory `dir`.
pub fn child_path(dir: &str, name: &str) -> (out: String)
    ensures
        out@ == child_of(dir@, name@),
{
    proof {
        reveal_strlit("/");
    }
    let chars = chars_of(dir);
    let mut out = dir.to_owned();
    if chars.len() == 1 && chars[0] == '/' {
        proof {
            assert(dir@ =~= "/"@);
        }
        out.append(name);
        return out;
    }
    out.append("/");
    out.append(name);
    out
}

/// The path of `name` in a directory whose path may end in a slash.
pub fn path_below(dir: &str, name: &str) -> (out: String)
    ensures
        out@ == below(dir@, name@),
{
    let chars = chars_of(dir);
    let mut out = dir.to_owned();
    if chars.len() == 0 || chars[chars.len() - 1] != '/' {
        out.append("/");
    }
    out.append(name);
    out
}

/// The directory that holds `dir`; the root holds itself.
pub fn parent_path(dir: &str) -> (out: String)
    ensures
        out@ == parent_of(dir@),
{
    let chars = chars_of(dir);
    match find_last_slash(&chars) {
        Some(at) => {
            if at == 0 {
                "/".to_owned()
            } else {
                string_of(slice_subrange(chars.as_slice(), 0, at))
            }
        },
        None => "/".to_owned(),
    }
}

/// Following a link from an absolute path never leaves the absolute paths.
pub proof fn law_links_stay_absolute(link: Seq<char>, target: Seq<char>)
    requires
        absolute(link),
    ensures
        absolute(link_leads_to(link, target)),
{
    reveal_strlit("/");
    lemma_last_slash(link);
    if !absolute(target) {
        let p = link.take(last_slash(link));
        lemma_trimmed_is_prefix(p);
        let t = trimmed(p);
        assert((t + "/"@ + target)[0] == '/') by {
            if t.len() > 0 {
                assert(t[0] == p[0]);
            }
        }
    }
}

proof fn lemma_trimmed_is_prefix(s: Seq<char>)
    ensures
        trimmed(s).len() <= s.len(),
        trimmed(s) == s.take(trimmed(s).len() as int),
    decreases s.len(),
{
    if s.len() > 0 && s.last() == '/' {
        lemma_trimmed_is_prefix(s.drop_last());
        assert(s.drop_last().take(trimmed(s).len() as int) =~= s.take(trimmed(s).len() as int));
    } else {
        assert(s.take(s.len() as int) =~= s);
    }
}

/// The directory of a child is the directory that the child was made in, for a
/// name that is one component and a directory path that is not empty.
pub proof fn law_parent_of_child(dir: Seq<char>, name: Seq<char>)
    requires
        dir.len() > 0,
        !name.contains('/'),
    ensures
        parent_of(child_of(dir, name)) == dir,
{
    reveal_strlit("/");
    let c = child_of(dir, name);
    lemma_last_slash(c);
    let at = if dir == "/"@ {
        0
    } else {
        dir.len() as int
    };
    assert(c[at] == '/');
    assert forall|k: int| at < k < c.len() implies c[k] != '/' by {
        assert(c[k] == name[k - at - 1]);
    }
    assert(last_slash(c) == at);
    if dir != "/"@ {
        assert(c.take(at) =~= dir);
    }
}

proof fn lemma_trimmed_slashes(dir: Seq<char>, count: nat)
    requires
        dir.len() > 0 ==> dir.last() != '/',
    ensures
        trimmed(dir + Seq::new(count, |i: int| '/')) == dir,
    decreases count,
{
    let s = dir + Seq::new(count, |i: int| '/');
    if count > 0 {
        lemma_trimmed_slashes(dir, (count - 1) as nat);
        assert(s.drop_last() =~= dir + Seq::new((count - 1) as nat, |i: int| '/'));
    } else {
        assert(s =~= dir);
    }
}

proof fn lemma_last_slash_at(s: Seq<char>, at: int)
    requires
        0 <= at < s.len(),
        s[at] == '/',
        forall|k: int| at < k < s.len() ==> s[k] != '/',
    ensures
        last_slash(s) == at,
{
    lemma_last_slash(s);
}

proof fn lemma_no_slash(s: Seq<char>)
    requires
        !s.contains('/'),
    ensures
        last_slash(s) == -1,
{
    lemma_last_slash(s);
}

/// A link leads from the directory that it stands in. The link `name` in the
/// directory `dir`, with any number of slashes between them, leads to its
/// target below `dir`; the empty `dir` is the root. An absolute target is taken
/// as it stands, and a path without a slash counts as one in the root.
#[verifier::rlimit(40)]
pub proof fn law_links_lead_from_their_directory(
    dir: Seq<char>,
    slashes: nat,
    name: Seq<char>,
    target: Seq<char>,
)
    requires
        dir.len() > 0 ==> dir.last() != '/',
        slashes > 0,
        !name.contains('/'),
    ensures
        target.len() > 0 && target[0] == '/' ==> link_leads_to(
            dir + Seq::new(slashes, |i: int| '/') + name,
            target,
        ) == target && link_leads_to(name, target) == target,
        !(target.len() > 0 && target[0] == '/') ==> link_leads_to(
            dir + Seq::new(slashes, |i: int| '/') + name,
            target,
        ) == dir + seq!['/'] + target && link_leads_to(name, target) == seq!['/'] + target,
{
    reveal_strlit("/");
    let link = dir + Seq::new(slashes, |i: int| '/') + name;
    let at = dir.len() + slashes - 1;
    assert forall|k: int| at < k < link.len() implies link[k] != '/' by {
        assert(link[k] == name[k - at - 1]);
    }
    lemma_last_slash_at(link, at);
    lemma_trimmed_slashes(dir, (slashes - 1) as nat);
    assert(link.take(at) =~= dir + Seq::new((slashes - 1) as nat, |i: int| '/'));
    lemma_no_slash(name);
    lemma_trimmed_slashes(Seq::empty(), 1);
    assert("/"@ =~= Seq::<char>::empty() + Seq::new(1, |i: int| '/'));
    assert("/"@ =~= seq!['/']);
    assert(trimmed("/"@) + "/"@ + target =~= seq!['/'] + target);
}

/// A link whose target is one name leads to a neighbour: what it leads to is in
/// the directory that holds the link.
pub proof fn law_links_to_names_lead_to_neighbours(
    dir: Seq<char>,
    name: Seq<char>,
    target: Seq<char>,
)
    requires
        dir.len() > 0,
        dir == seq!['/'] || dir.last() != '/',
        !name.contains('/'),
        !target.contains('/'),
    ensures
        link_leads_to(child_of(dir, name), target) == child_of(dir, target),
        parent_of(link_leads_to(child_of(dir, name), target)) == dir,
        parent_of(child_of(dir, name)) == dir,
{
    reveal_strlit("/");
    assert("/"@ =~= seq!['/']);
    let base = if dir == seq!['/'] {
        Seq::empty()
    } else {
        dir
    };
    law_links_lead_from_their_directory(base, 1, name, target);
    assert(child_of(dir, name) =~= base + Seq::new(1, |i: int| '/') + name);
    assert(child_of(dir, target) =~= base + seq!['/'] + target);
    assert(!(target.len() > 0 && target[0] == '/'));
    law_parent_of_child(dir, name);
    law_parent_of_child(dir, target);
}

/// A name in a directory stands behind the directory and one slash; the root
/// is that slash. The directory of a path is what stands before its last slash,
/// where that is not nothing, and otherwise the root.
#[verifier::rlimit(40)]
pub proof fn law_paths_are_put_together(dir: Seq<char>, name: Seq<char>)
    ensures
        child_of(seq!['/'], name) == seq!['/'] + name,
        dir != seq!['/'] ==> child_of(dir, name) == dir + seq!['/'] + name,
        below(dir + seq!['/'], name) == dir + seq!['/'] + name,
        !(dir.len() > 0 && dir.last() == '/') ==> below(dir, name) == dir + seq!['/'] + name,
        !name.contains('/') ==> {
            &&& dir.len() > 0 ==> parent_of(dir + seq!['/'] + name) == dir
            &&& parent_of(seq!['/'] + name) == seq!['/']
            &&& parent_of(name) == seq!['/']
        },
{
    reveal_strlit("/");
    assert("/"@ =~= seq!['/']);
    if !name.contains('/') {
        lemma_no_slash(name);
        let a = dir + seq!['/'] + name;
        assert forall|k: int| dir.len() < k < a.len() implies a[k] != '/' by {
            assert(a[k] == name[k - dir.len() - 1]);
        }
        lemma_last_slash_at(a, dir.len() as int);
        assert(a.take(dir.len() as int) =~= dir);
        let b = seq!['/'] + name;
        assert forall|k: int| 0 < k < b.len() implies b[k] != '/' by {
            assert(b[k] == name[k - 1]);
        }
        lemma_last_slash_at(b, 0);
    }
}

/// A Windows path changes nothing but its separators: where it has a backslash
/// there is a slash, and everything else stays in its place. Only the empty
/// path, which is the root, becomes longer.
pub proof fn law_only_separators_change(s: Seq<char>)
    ensures
        s.len() == 0 ==> unix_form(s) == seq!['/'],
        s.len() > 0 ==> unix_form(s).len() == s.len(),
        !unix_form(s).contains('\\'),
        forall|i: int|
            0 <= i < s.len() ==> if s[i] == '\\' {
                #[trigger] unix_form(s)[i] == '/'
            } else {
                unix_form(s)[i] == s[i]
            },
{
    reveal_strlit("/");
    assert("/"@ =~= seq!['/']);
}

}
