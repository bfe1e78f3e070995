//! Listing a directory. Windows asks for a listing page by page: a page after
//! the first one names the entry that it resumes after.

use vstd::prelude::*;
use vstd::utf8::{decode_utf8, valid_utf8};

use crate::attr::{info_of, populate_file_info, FileInfo, Found};
use crate::context::{no_such_name, sound, Ext4Context, Ext4FileContext, FileView};
use crate::path::{child_of, child_path, parent_of, parent_path};
use crate::status::{refused, Failure, NtStatus};
use crate::text::{contains_nul, has_nul, same_str, strict_str};
use crate::utf16::{decode16, encode16, wide_str_lossy};

verus! {

/// A listing of the directory at `path`. It offers no entry before it has
/// started, and it starts behind the entry that it resumes after.
pub struct DirListing {
    pub path: String,
    pub resume_after: Option<String>,
    pub started: bool,
}

/// A listing over mathematical text.
#[verifier::ext_equal]
pub struct ListingView {
    pub path: Seq<char>,
    pub resume_after: Option<Seq<char>>,
    pub started: bool,
}

impl View for DirListing {
    type V = ListingView;

    open spec fn view(&self) -> ListingView {
        ListingView {
            path: self.path@,
            resume_after: match self.resume_after {
                Some(s) => Some(s@),
                None => None,
            },
            started: self.started,
        }
    }
}

/// An entry that goes into the listing if the lookup of `path` finds it.
pub struct Candidate {
    pub name: String,
    pub path: String,
}

/// An entry over mathematical text.
#[verifier::ext_equal]
pub struct CandidateView {
    pub name: Seq<char>,
    pub path: Seq<char>,
}

impl View for Candidate {
    type V = CandidateView;

    open spec fn view(&self) -> CandidateView {
        CandidateView { name: self.name@, path: self.path@ }
    }
}

/// An entry for the listing.
pub struct DirEntry {
    pub name: String,
    pub info: FileInfo,
}

/// An entry for the listing over mathematical text.
#[verifier::ext_equal]
pub struct EntryView {
    pub name: Seq<char>,
    pub info: FileInfo,
}

impl View for DirEntry {
    type V = EntryView;

    open spec fn view(&self) -> EntryView {
        EntryView { name: self.name@, info: self.info }
    }
}

/// How the attempt to put an entry into Windows' buffer turned out.
#[derive(Clone, Copy, Debug, PartialEq, Eq, Structural)]
pub enum Added {
    /// The name is too long for Windows' structure.
    NameRefused,
    /// The entry is in the buffer.
    Written,
    /// The buffer has no room for it.
    Full,
}

/// A listing that is about to begin.
pub open spec fn listing_of(path: Seq<char>, marker: Option<Seq<u16>>) -> ListingView {
    ListingView {
        path,
        resume_after: match marker {
            Some(m) => Some(decode16(m)),
            None => None,
        },
        started: marker is None,
    }
}

/// Why a listing is refused, or `None`.
pub open spec fn listing_refusal(dir: FileView) -> Option<Failure> {
    if !dir.is_dir {
        Some(refused(NtStatus::NotADirectory))
    } else if has_nul(dir.path) {
        Some(no_such_name())
    } else {
        None
    }
}

/// The path that is looked up for an entry.
pub open spec fn entry_path(dir: Seq<char>, name: Seq<char>) -> Seq<char> {
    if name == "."@ {
        dir
    } else if name == ".."@ {
        parent_of(dir)
    } else {
        child_of(dir, name)
    }
}

/// What a listing offers for an entry: nothing before it has started, and
/// nothing for a name that is not UTF-8.
pub open spec fn offered(l: ListingView, name: Seq<u8>) -> Option<CandidateView> {
    if valid_utf8(name) && l.started {
        Some(
            CandidateView {
                name: decode_utf8(name),
                path: entry_path(l.path, decode_utf8(name)),
            },
        )
    } else {
        None
    }
}

/// The listing behind an entry.
pub open spec fn advanced(l: ListingView, name: Seq<u8>) -> ListingView {
    if valid_utf8(name) && !l.started && l.resume_after == Some(decode_utf8(name)) {
        ListingView { started: true, ..l }
    } else {
        l
    }
}

impl Ext4Context {
    /// A request to list an open directory, from its start or behind `marker`.
    pub fn read_directory(&self, dir: &Ext4FileContext, marker: Option<&[u16]>) -> (out: Result<
        DirListing,
        Failure,
    >)
        ensures
            match listing_refusal(dir@) {
                Some(f) => out == Err::<DirListing, Failure>(f),
                None => out matches Ok(l) && l@ == listing_of(
                    dir@.path,
                    match marker {
                        Some(m) => Some(m@),
                        None => None,
                    },
                ),
            },
    {
        if !dir.is_dir {
            return Err(Failure::refuse(NtStatus::NotADirectory));
        }
        if contains_nul(dir.unix_path.as_str()) {
            return Err(Failure::refuse(NtStatus::ObjectNameNotFound));
        }
        let (resume_after, started) = match marker {
            Some(m) => (Some(wide_str_lossy(m)), false),
            None => (None, true),
        };
        Ok(DirListing { path: dir.unix_path.clone(), resume_after, started })
    }
}

fn path_of_entry(dir: &str, name: &str) -> (out: String)
    ensures
        out@ == entry_path(dir@, name@),
{
    if same_str(name, ".") {
        dir.to_owned()
    } else if same_str(name, "..") {
        parent_path(dir)
    } else {
        child_path(dir, name)
    }
}

impl DirListing {
    /// Takes the next entry of the directory and says what to look up for it,
    /// if anything.
    pub fn on_entry(&mut self, name: &[u8]) -> (out: Option<Candidate>)
        ensures
            final(self)@ == advanced(old(self)@, name@),
            match offered(old(self)@, name@) {
                Some(want) => out matches Some(c) && c@ == want,
                None => out is None,
            },
    {
        let name = match strict_str(name) {
            Some(s) => s,
            None => {
                return None;
            },
        };
        if !self.started {
            if let Some(after) = &self.resume_after {
                if same_str(name, after.as_str()) {
                    self.started = true;
                }
            }
            return None;
        }
        Some(Candidate { name: name.to_owned(), path: path_of_entry(self.path.as_str(), name) })
    }
}

/// The entry that the lookup of a candidate gives; none where it fails.
pub open spec fn entry_found(c: CandidateView, reply: Result<Found, Failure>) -> Option<
    EntryView,
> {
    match reply {
        Err(_) => None,
        Ok(found) => Some(EntryView { name: c.name, info: info_of(found) }),
    }
}

impl Candidate {
    /// The entry for the listing. One that cannot be looked up is left out.
    pub fn on_lookup(self, reply: Result<Found, Failure>) -> (out: Option<DirEntry>)
        requires
            sound(reply),
        ensures
            match entry_found(self@, reply) {
                Some(want) => out matches Some(e) && e@ == want,
                None => out is None,
            },
    {
        match reply {
            Err(_) => None,
            Ok(found) => Some(DirEntry { name: self.name, info: populate_file_info(&found) }),
        }
    }
}

/// Whether the listing goes on behind an entry. It ends where the buffer is
/// full; an entry whose name is refused is left out.
pub open spec fn goes_on_after(added: Added) -> bool {
    added != Added::Full
}

/// Whether the listing goes on behind an entry.
pub fn goes_on(added: Added) -> (more: bool)
    ensures
        more == goes_on_after(added),
{
    added != Added::Full
}

/// The listing behind a row of entries.
pub open spec fn advanced_all(l: ListingView, names: Seq<Seq<u8>>) -> ListingView
    decreases names.len(),
{
    if names.len() == 0 {
        l
    } else {
        advanced(advanced_all(l, names.drop_last()), names.last())
    }
}

/// What a listing offers for a row of entries.
pub open spec fn offers(l: ListingView, names: Seq<Seq<u8>>) -> Seq<CandidateView>
    decreases names.len(),
{
    if names.len() == 0 {
        Seq::empty()
    } else {
        let before = offers(l, names.drop_last());
        match offered(advanced_all(l, names.drop_last()), names.last()) {
            Some(c) => before.push(c),
            None => before,
        }
    }
}

/// Whether no two entries of a directory have the same name.
pub open spec fn distinct_names(names: Seq<Seq<u8>>) -> bool {
    forall|i: int, j: int|
        0 <= i < j < names.len() && valid_utf8(names[i]) && valid_utf8(names[j])
            ==> #[trigger] decode_utf8(names[i]) != #[trigger] decode_utf8(names[j])
}

proof fn lemma_from_the_start(path: Seq<char>, names: Seq<Seq<u8>>)
    ensures
        advanced_all(listing_of(path, None), names) == listing_of(path, None),
        forall|k: int|
            0 <= k < offers(listing_of(path, None), names).len() ==> exists|i: int|
                0 <= i < names.len() && valid_utf8(#[trigger] names[i]) && decode_utf8(names[i])
                    == (#[trigger] offers(listing_of(path, None), names)[k]).name,
    decreases names.len(),
{
    let l = listing_of(path, None);
    if names.len() > 0 {
        let rest = names.drop_last();
        lemma_from_the_start(path, rest);
        assert forall|k: int| 0 <= k < offers(l, names).len() implies exists|i: int|
            0 <= i < names.len() && valid_utf8(#[trigger] names[i]) && decode_utf8(names[i]) == (
            #[trigger] offers(l, names)[k]).name by {
            if k < offers(l, rest).len() {
                assert(offers(l, names)[k] == offers(l, rest)[k]);
                let i = choose|i: int|
                    0 <= i < rest.len() && valid_utf8(#[trigger] rest[i]) && decode_utf8(rest[i])
                        == offers(l, rest)[k].name;
                assert(names[i] == rest[i]);
            } else {
                assert(names[names.len() - 1] == names.last());
            }
        }
    }
}

proof fn lemma_before_the_marker(path: Seq<char>, marker: Seq<u16>, names: Seq<Seq<u8>>)
    requires
        forall|i: int|
            0 <= i < names.len() && valid_utf8(#[trigger] names[i]) ==> decode_utf8(names[i])
                != decode16(marker),
    ensures
        advanced_all(listing_of(path, Some(marker)), names) == listing_of(path, Some(marker)),
        offers(listing_of(path, Some(marker)), names) == Seq::<CandidateView>::empty(),
    decreases names.len(),
{
    if names.len() > 0 {
        assert(names[names.len() - 1] == names.last());
        assert forall|i: int|
            0 <= i < names.drop_last().len() && valid_utf8(
                #[trigger] names.drop_last()[i],
            ) implies decode_utf8(names.drop_last()[i]) != decode16(marker) by {
            assert(names[i] == names.drop_last()[i]);
        }
        lemma_before_the_marker(path, marker, names.drop_last());
    }
}

proof fn lemma_resumes(path: Seq<char>, marker: Seq<u16>, names: Seq<Seq<u8>>, k: int)
    requires
        distinct_names(names),
        0 < k <= offers(listing_of(path, None), names).len(),
        offers(listing_of(path, None), names)[k - 1].name == decode16(marker),
    ensures
        offers(listing_of(path, Some(marker)), names) == offers(listing_of(path, None), names).skip(
            k,
        ),
        advanced_all(listing_of(path, Some(marker)), names).started,
        advanced_all(listing_of(path, Some(marker)), names).path == path,
    decreases names.len(),
{
    let fresh = listing_of(path, None);
    let resumed = listing_of(path, Some(marker));
    let rest = names.drop_last();
    lemma_from_the_start(path, rest);
    assert(distinct_names(rest)) by {
        assert forall|i: int, j: int|
            0 <= i < j < rest.len() && valid_utf8(rest[i]) && valid_utf8(
                rest[j],
            ) implies #[trigger] decode_utf8(rest[i]) != #[trigger] decode_utf8(rest[j]) by {
            assert(rest[i] == names[i] && rest[j] == names[j]);
        }
    }
    if k <= offers(fresh, rest).len() {
        assert(offers(fresh, names)[k - 1] == offers(fresh, rest)[k - 1]);
        lemma_resumes(path, marker, rest, k);
        assert(offers(resumed, names) =~= offers(fresh, names).skip(k));
    } else {
        assert(decode_utf8(names.last()) == decode16(marker));
        assert forall|i: int| 0 <= i < rest.len() && valid_utf8(#[trigger] rest[i]) implies
            decode_utf8(rest[i]) != decode16(marker) by {
            assert(rest[i] == names[i]);
            assert(names.last() == names[names.len() - 1]);
            assert(decode_utf8(names[i]) != decode_utf8(names[names.len() - 1]));
        }
        lemma_before_the_marker(path, marker, rest);
        assert(offers(resumed, names) =~= offers(fresh, names).skip(k));
    }
}

/// Pages fit together: where the entries of a directory have distinct names, a
/// page that resumes after entry number `k` of the whole listing, by its name
/// in UTF-16, offers exactly the entries behind it.
pub proof fn law_pages_fit_together(path: Seq<char>, names: Seq<Seq<u8>>, k: int)
    requires
        distinct_names(names),
        0 < k <= offers(listing_of(path, None), names).len(),
    ensures
        ({
            let whole = offers(listing_of(path, None), names);
            let marker = encode16(whole[k - 1].name);
            offers(listing_of(path, Some(marker)), names) == whole.skip(k)
        }),
{
    let name = offers(listing_of(path, None), names)[k - 1].name;
    crate::utf16::law_wide_round_trip(name);
    lemma_resumes(path, encode16(name), names, k);
}

// ---------------------------------------------------------------------------
// Whole pages
// ---------------------------------------------------------------------------

/// A directory as a listing sees it: what the lookup of each path gives, and
/// which names Windows' structure refuses.
pub struct Lookups {
    pub reply: spec_fn(Seq<char>) -> Result<Found, Failure>,
    pub refuses: spec_fn(Seq<char>) -> bool,
}

/// How it turns out to put an entry into a buffer with room for `room` more.
pub open spec fn added_to(v: Lookups, e: EntryView, room: nat) -> Added {
    if (v.refuses)(e.name) {
        Added::NameRefused
    } else if room == 0 {
        Added::Full
    } else {
        Added::Written
    }
}

/// The entries that one page hands out: the listing takes the names of the
/// directory in order, and what it offers is looked up and put into the buffer,
/// until one finds no room.
pub open spec fn page(l: ListingView, names: Seq<Seq<u8>>, v: Lookups, room: nat) -> Seq<EntryView>
    decreases names.len(),
{
    if names.len() == 0 {
        Seq::empty()
    } else {
        let next = advanced(l, names[0]);
        let found = match offered(l, names[0]) {
            Some(c) => entry_found(c, (v.reply)(c.path)),
            None => None,
        };
        match found {
            None => page(next, names.skip(1), v, room),
            Some(e) => {
                let added = added_to(v, e, room);
                if !goes_on_after(added) {
                    Seq::empty()
                } else if added == Added::Written {
                    seq![e] + page(next, names.skip(1), v, (room - 1) as nat)
                } else {
                    page(next, names.skip(1), v, room)
                }
            },
        }
    }
}

/// The entry of a name, where the name is UTF-8, can be looked up and is not
/// refused.
pub open spec fn entry_of(path: Seq<char>, name: Seq<u8>, v: Lookups) -> Option<EntryView> {
    if !valid_utf8(name) {
        None
    } else {
        let text = decode_utf8(name);
        let c = CandidateView { name: text, path: entry_path(path, text) };
        match entry_found(c, (v.reply)(c.path)) {
            Some(e) => if (v.refuses)(text) {
                None
            } else {
                Some(e)
            },
            None => None,
        }
    }
}

/// All entries of a directory, in its order.
pub open spec fn all_entries(path: Seq<char>, names: Seq<Seq<u8>>, v: Lookups) -> Seq<EntryView>
    decreases names.len(),
{
    if names.len() == 0 {
        Seq::empty()
    } else {
        let rest = all_entries(path, names.skip(1), v);
        match entry_of(path, names[0], v) {
            Some(e) => seq![e] + rest,
            None => rest,
        }
    }
}

/// The first `n` of a row, or all where it has fewer.
pub open spec fn at_most(s: Seq<EntryView>, n: nat) -> Seq<EntryView> {
    if n < s.len() {
        s.take(n as int)
    } else {
        s
    }
}

/// The pages of a directory one behind the other. The first page resumes after
/// `marker`, each next one after the last name of the page before; an empty
/// page ends the row. `rooms` tells how many entries each page has room for.
pub open spec fn joined_pages(
    path: Seq<char>,
    names: Seq<Seq<u8>>,
    v: Lookups,
    marker: Option<Seq<u16>>,
    rooms: Seq<nat>,
) -> Seq<EntryView>
    decreases rooms.len(),
{
    if rooms.len() == 0 {
        Seq::empty()
    } else {
        let first = page(listing_of(path, marker), names, v, rooms[0]);
        if first.len() == 0 {
            first
        } else {
            first + joined_pages(
                path,
                names,
                v,
                Some(encode16(first.last().name)),
                rooms.skip(1),
            )
        }
    }
}

proof fn lemma_started_page(l: ListingView, names: Seq<Seq<u8>>, v: Lookups, room: nat)
    requires
        l.started,
    ensures
        page(l, names, v, room) == at_most(all_entries(l.path, names, v), room),
    decreases names.len(),
{
    if names.len() > 0 {
        let rest = names.skip(1);
        let whole = all_entries(l.path, names, v);
        lemma_started_page(l, rest, v, room);
        match entry_of(l.path, names[0], v) {
            None => {},
            Some(e) => {
                if room > 0 {
                    lemma_started_page(l, rest, v, (room - 1) as nat);
                }
                assert(page(l, names, v, room) =~= at_most(whole, room));
            },
        }
    }
}

proof fn lemma_entries_have_names(path: Seq<char>, names: Seq<Seq<u8>>, v: Lookups, k: int)
    requires
        0 <= k < all_entries(path, names, v).len(),
    ensures
        exists|i: int|
            0 <= i < names.len() && valid_utf8(#[trigger] names[i]) && decode_utf8(names[i])
                == all_entries(path, names, v)[k].name,
    decreases names.len(),
{
    let rest = names.skip(1);
    let here = entry_of(path, names[0], v) is Some;
    if here && k == 0 {
        assert(valid_utf8(names[0]));
    } else {
        let at = if here {
            k - 1
        } else {
            k
        };
        lemma_entries_have_names(path, rest, v, at);
        let i = choose|i: int|
            0 <= i < rest.len() && valid_utf8(#[trigger] rest[i]) && decode_utf8(rest[i])
                == all_entries(path, rest, v)[at].name;
        assert(names[i + 1] == rest[i]);
    }
}

proof fn lemma_distinct_rest(names: Seq<Seq<u8>>)
    requires
        distinct_names(names),
        names.len() > 0,
    ensures
        distinct_names(names.skip(1)),
{
    let rest = names.skip(1);
    assert forall|i: int, j: int|
        0 <= i < j < rest.len() && valid_utf8(rest[i]) && valid_utf8(
            rest[j],
        ) implies #[trigger] decode_utf8(rest[i]) != #[trigger] decode_utf8(rest[j]) by {
        assert(rest[i] == names[i + 1] && rest[j] == names[j + 1]);
    }
}

/// The name of the first entry of a directory is not that of an entry behind it.
proof fn lemma_first_is_other(path: Seq<char>, names: Seq<Seq<u8>>, v: Lookups, k: int)
    requires
        distinct_names(names),
        names.len() > 0,
        0 <= k < all_entries(path, names.skip(1), v).len(),
    ensures
        valid_utf8(names[0]) ==> decode_utf8(names[0]) != all_entries(
            path,
            names.skip(1),
            v,
        )[k].name,
{
    let rest = names.skip(1);
    lemma_entries_have_names(path, rest, v, k);
    let i = choose|i: int|
        0 <= i < rest.len() && valid_utf8(#[trigger] rest[i]) && decode_utf8(rest[i])
            == all_entries(path, rest, v)[k].name;
    assert(rest[i] == names[i + 1]);
    if valid_utf8(names[0]) {
        assert(decode_utf8(names[0]) != decode_utf8(names[i + 1]));
    }
}

proof fn lemma_resumed_page(
    path: Seq<char>,
    marker: Seq<u16>,
    names: Seq<Seq<u8>>,
    v: Lookups,
    room: nat,
    k: int,
)
    requires
        distinct_names(names),
        0 < k <= all_entries(path, names, v).len(),
        all_entries(path, names, v)[k - 1].name == decode16(marker),
    ensures
        page(listing_of(path, Some(marker)), names, v, room) == at_most(
            all_entries(path, names, v).skip(k),
            room,
        ),
    decreases names.len(),
{
    let l = listing_of(path, Some(marker));
    let rest = names.skip(1);
    let whole = all_entries(path, names, v);
    let behind = all_entries(path, rest, v);
    lemma_distinct_rest(names);
    let here = entry_of(path, names[0], v) is Some;
    if here && k == 1 {
        let next = advanced(l, names[0]);
        lemma_started_page(next, rest, v, room);
        assert(whole.skip(1) =~= behind);
    } else {
        let at = if here {
            k - 1
        } else {
            k
        };
        assert(behind[at - 1] == whole[k - 1]);
        lemma_first_is_other(path, names, v, at - 1);
        assert(advanced(l, names[0]) == l);
        lemma_resumed_page(path, marker, rest, v, room, at);
        assert(whole.skip(k) =~= behind.skip(at));
    }
}

/// A page hands out the entries that come next: the first page as many from the
/// start as it has room for, and a page that resumes after entry number `k` of
/// the directory as many from behind it. So a page that has room is empty only
/// where no entry is left.
pub proof fn law_page_goes_on_where_the_last_ended(
    path: Seq<char>,
    names: Seq<Seq<u8>>,
    v: Lookups,
    room: nat,
    k: int,
)
    requires
        distinct_names(names),
        0 <= k <= all_entries(path, names, v).len(),
    ensures
        ({
            let all = all_entries(path, names, v);
            let marker = if k == 0 {
                None
            } else {
                Some(encode16(all[k - 1].name))
            };
            page(listing_of(path, marker), names, v, room) == at_most(all.skip(k), room)
        }),
{
    let all = all_entries(path, names, v);
    if k == 0 {
        lemma_started_page(listing_of(path, None), names, v, room);
        assert(all.skip(0) =~= all);
    } else {
        crate::utf16::law_wide_round_trip(all[k - 1].name);
        lemma_resumed_page(path, encode16(all[k - 1].name), names, v, room, k);
    }
}

proof fn lemma_joined(
    path: Seq<char>,
    names: Seq<Seq<u8>>,
    v: Lookups,
    rooms: Seq<nat>,
    k: int,
)
    requires
        distinct_names(names),
        forall|i: int| 0 <= i < rooms.len() ==> #[trigger] rooms[i] > 0,
        0 <= k <= all_entries(path, names, v).len(),
    ensures
        ({
            let all = all_entries(path, names, v);
            let marker = if k == 0 {
                None
            } else {
                Some(encode16(all[k - 1].name))
            };
            let joined = joined_pages(path, names, v, marker, rooms);
            &&& joined.len() <= all.len() - k
            &&& joined == all.subrange(k, k + joined.len())
            &&& rooms.len() >= all.len() - k ==> joined == all.skip(k)
        }),
    decreases rooms.len(),
{
    let all = all_entries(path, names, v);
    let marker = if k == 0 {
        None
    } else {
        Some(encode16(all[k - 1].name))
    };
    let joined = joined_pages(path, names, v, marker, rooms);
    if rooms.len() == 0 {
        assert(joined =~= all.subrange(k, k));
        if all.len() == k {
            assert(joined =~= all.skip(k));
        }
    } else {
        law_page_goes_on_where_the_last_ended(path, names, v, rooms[0], k);
        let first = page(listing_of(path, marker), names, v, rooms[0]);
        let next = k + first.len();
        if first.len() == 0 {
            assert(all.skip(k).len() == 0);
            assert(joined =~= all.subrange(k, k));
            assert(joined =~= all.skip(k));
        } else {
            assert(first.last() == all[next - 1]);
            assert forall|i: int| 0 <= i < rooms.skip(1).len() implies #[trigger] rooms.skip(1)[i]
                > 0 by {
                assert(rooms.skip(1)[i] == rooms[i + 1]);
            }
            lemma_joined(path, names, v, rooms.skip(1), next);
            let more = joined_pages(
                path,
                names,
                v,
                Some(encode16(first.last().name)),
                rooms.skip(1),
            );
            assert(joined == first + more);
            assert(joined =~= all.subrange(k, k + joined.len()));
            if rooms.len() >= all.len() - k {
                assert(joined =~= all.skip(k));
            }
        }
    }
}

proof fn lemma_entries_once(path: Seq<char>, names: Seq<Seq<u8>>, v: Lookups, i: int, j: int)
    requires
        distinct_names(names),
        0 <= i < j < all_entries(path, names, v).len(),
    ensures
        all_entries(path, names, v)[i].name != all_entries(path, names, v)[j].name,
    decreases names.len(),
{
    let rest = names.skip(1);
    lemma_distinct_rest(names);
    if entry_of(path, names[0], v) is Some {
        if i == 0 {
            lemma_first_is_other(path, names, v, j - 1);
        } else {
            lemma_entries_once(path, rest, v, i - 1, j - 1);
        }
    } else {
        lemma_entries_once(path, rest, v, i, j);
    }
}

proof fn lemma_entries_complete(path: Seq<char>, names: Seq<Seq<u8>>, v: Lookups, i: int)
    requires
        0 <= i < names.len(),
        entry_of(path, names[i], v) is Some,
    ensures
        all_entries(path, names, v).contains(entry_of(path, names[i], v)->0),
    decreases names.len(),
{
    let e = entry_of(path, names[i], v)->0;
    let rest = names.skip(1);
    let whole = all_entries(path, names, v);
    if i == 0 {
        assert(whole[0] == e);
    } else {
        assert(rest[i - 1] == names[i]);
        lemma_entries_complete(path, rest, v, i - 1);
        let k = choose|k: int|
            0 <= k < all_entries(path, rest, v).len() && all_entries(path, rest, v)[k] == e;
        if entry_of(path, names[0], v) is Some {
            assert(whole[k + 1] == e);
        } else {
            assert(whole[k] == e);
        }
    }
}

/// A listing page by page is the directory: where its names are distinct and
/// every page has room for an entry, the pages joined together hold nothing but
/// its entries, in its order and without a gap, and all of them once there were
/// as many pages as entries. Each name that is UTF-8, can be looked up and is
/// not refused has its entry there, `.` and `..` too, and no name comes twice.
/// Something that is no directory is refused whatever the marker.
pub proof fn law_pages_hold_the_directory(
    dir: FileView,
    names: Seq<Seq<u8>>,
    v: Lookups,
    rooms: Seq<nat>,
)
    requires
        distinct_names(names),
        forall|i: int| 0 <= i < rooms.len() ==> #[trigger] rooms[i] > 0,
    ensures
        ({
            let all = all_entries(dir.path, names, v);
            let joined = joined_pages(dir.path, names, v, None, rooms);
            &&& joined.is_prefix_of(all)
            &&& rooms.len() >= all.len() ==> joined == all
            &&& forall|i: int|
                0 <= i < names.len() && (#[trigger] entry_of(dir.path, names[i], v)) is Some
                    ==> all.contains(entry_of(dir.path, names[i], v)->0)
            &&& forall|i: int, j: int|
                0 <= i < j < all.len() ==> (#[trigger] all[i]).name != (#[trigger] all[j]).name
        }),
        !dir.is_dir ==> listing_refusal(dir) == Some(refused(NtStatus::NotADirectory)),
{
    let path = dir.path;
    let all = all_entries(path, names, v);
    lemma_joined(path, names, v, rooms, 0);
    let joined = joined_pages(path, names, v, None, rooms);
    assert(all.skip(0) =~= all);
    assert(joined.is_prefix_of(all));
    assert forall|i: int|
        0 <= i < names.len() && (#[trigger] entry_of(path, names[i], v)) is Some implies all.contains(
        entry_of(path, names[i], v)->0,
    ) by {
        lemma_entries_complete(path, names, v, i);
    }
    assert forall|i: int, j: int| 0 <= i < j < all.len() implies (#[trigger] all[i]).name != (
    #[trigger] all[j]).name by {
        lemma_entries_once(path, names, v, i, j);
    }
}

/// An entry is looked up where it stands: the path that a started listing offers
/// for a name is the name in the directory. Only one dot means the directory
/// itself and two dots the one that holds it; a name that merely starts with a
/// dot is a name like any other.
pub proof fn law_entries_are_looked_up_in_their_directory(l: ListingView, name: Seq<u8>)
    ensures
        !l.started || !valid_utf8(name) ==> offered(l, name) is None,
        l.started && valid_utf8(name) ==> {
            let text = decode_utf8(name);
            &&& offered(l, name) matches Some(c) && c.name == text && if text == seq!['.'] {
                c.path == l.path
            } else if text == seq!['.', '.'] {
                c.path == parent_of(l.path)
            } else if l.path == seq!['/'] {
                c.path == seq!['/'] + text
            } else {
                c.path == l.path + seq!['/'] + text
            }
        },
{
    reveal_strlit(".");
    reveal_strlit("..");
    reveal_strlit("/");
    assert("."@ =~= seq!['.']);
    assert(".."@ =~= seq!['.', '.']);
    assert("/"@ =~= seq!['/']);
}

/// Entries with different names are looked up at different paths, and none at
/// that of the directory, for all names but the two of dots.
pub proof fn law_entries_have_paths_of_their_own(l: ListingView, a: Seq<u8>, b: Seq<u8>)
    requires
        l.started,
        valid_utf8(a) && valid_utf8(b),
        decode_utf8(a) != decode_utf8(b),
        decode_utf8(a) != seq!['.'] && decode_utf8(a) != seq!['.', '.'],
        decode_utf8(b) != seq!['.'] && decode_utf8(b) != seq!['.', '.'],
    ensures
        offered(l, a)->Some_0.path != offered(l, b)->Some_0.path,
        decode_utf8(a).len() > 0 ==> offered(l, a)->Some_0.path != l.path,
{
    law_entries_are_looked_up_in_their_directory(l, a);
    law_entries_are_looked_up_in_their_directory(l, b);
    let x = decode_utf8(a);
    let y = decode_utf8(b);
    let p = offered(l, a)->Some_0.path;
    let q = offered(l, b)->Some_0.path;
    let head = if l.path == seq!['/'] {
        seq!['/']
    } else {
        l.path + seq!['/']
    };
    assert(p =~= head + x);
    assert(q =~= head + y);
    assert(p.skip(head.len() as int) =~= x);
    assert(q.skip(head.len() as int) =~= y);
}

/// A listing without a marker has started. One with a marker starts behind the
/// entry whose name the marker spells, and behind no other; it keeps its path.
pub proof fn law_listings_start_behind_their_marker(
    path: Seq<char>,
    marker: Seq<u16>,
    name: Seq<u8>,
)
    ensures
        listing_of(path, None).started,
        listing_of(path, None).path == path,
        !listing_of(path, Some(marker)).started,
        listing_of(path, Some(marker)).path == path,
        advanced(listing_of(path, Some(marker)), name).started <==> valid_utf8(name)
            && decode_utf8(name) == decode16(marker),
        advanced(listing_of(path, Some(marker)), name).path == path,
        advanced(listing_of(path, None), name) == listing_of(path, None),
{
}

/// An entry shows the information of the inode that its own lookup found, under
/// its own name; one whose lookup fails is left out.
pub proof fn law_entries_show_what_was_found(c: CandidateView, found: Found, f: Failure)
    ensures
        entry_found(c, Ok(found)) == Some(EntryView { name: c.name, info: info_of(found) }),
        entry_found(c, Err(f)) is None,
        goes_on_after(Added::Written),
        goes_on_after(Added::NameRefused),
        !goes_on_after(Added::Full),
{
}

/// A listing is made exactly of a directory whose path holds no NUL.
pub proof fn law_directories_are_listed(dir: FileView)
    ensures
        listing_refusal(dir) is None <==> dir.is_dir && !dir.path.contains('\0'),
        !dir.is_dir ==> listing_refusal(dir) == Some(
            Failure { status: NtStatus::NotADirectory, errno: None },
        ),
        dir.is_dir && dir.path.contains('\0') ==> listing_refusal(dir) == Some(
            Failure { status: NtStatus::ObjectNameNotFound, errno: None },
        ),
{
}

/// A listing, what it offers and what it shows are seen as what they hold.
pub proof fn law_listings_are_seen_as_they_are(l: DirListing, c: Candidate, e: DirEntry)
    ensures
        l@.path == l.path@,
        l@.started == l.started,
        l@.resume_after is Some <==> l.resume_after is Some,
        l.resume_after matches Some(s) ==> l@.resume_after == Some(s@),
        c@.name == c.name@,
        c@.path == c.path@,
        e@.name == e.name@,
        e@.info == e.info,
{
}

}
