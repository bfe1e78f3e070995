//! The `tree` command: all that lies below the root, each directory followed
//! by its contents.
//!
//! The walk keeps the directories that it is in on a stack. It goes on step by
//! step, so that the listing of each directory can be fetched in between.

use vstd::prelude::*;

use crate::cmd::report::{call_failed, call_failure, RawEntry};
use crate::format::{ftype_str, type_letter};
use crate::path::{below, path_below};
use crate::text::{
    contains_nul, dec, dec_text, has_nul, lossy_str, pad_left, padded_left, repeated, same_str,
    lossy_text,
};

verus! {

/// An entry that the tree shows.
pub struct Row {
    pub inode: u32,
    pub file_type: u8,
    pub name: String,
}

/// An entry over mathematical text.
#[verifier::ext_equal]
pub struct RowView {
    pub inode: u32,
    pub file_type: u8,
    pub name: Seq<char>,
}

impl View for Row {
    type V = RowView;

    open spec fn view(&self) -> RowView {
        RowView { inode: self.inode, file_type: self.file_type, name: self.name@ }
    }
}

/// The entries of a vector.
pub open spec fn row_views(list: Seq<Row>) -> Seq<RowView> {
    list.map_values(|r: Row| r@)
}

/// A directory that the walk is in: the entries from `next` on are left.
pub struct Frame {
    pub dir: String,
    pub depth: u32,
    pub rows: Vec<Row>,
    pub next: usize,
}

/// A directory over mathematical text.
#[verifier::ext_equal]
pub struct FrameView {
    pub dir: Seq<char>,
    pub depth: int,
    pub rows: Seq<RowView>,
    pub next: int,
}

impl View for Frame {
    type V = FrameView;

    open spec fn view(&self) -> FrameView {
        FrameView {
            dir: self.dir@,
            depth: self.depth as int,
            rows: row_views(self.rows@),
            next: self.next as int,
        }
    }
}

/// The frames of a vector.
pub open spec fn frame_views(list: Seq<Frame>) -> Seq<FrameView> {
    list.map_values(|f: Frame| f@)
}

/// A directory that the walk is about to enter.
pub struct Entering {
    pub dir: String,
    pub depth: u32,
}

/// A walk through the tree.
pub struct TreeWalk {
    max_depth: u32,
    entering: Option<Entering>,
    stack: Vec<Frame>,
}

/// A walk over mathematical text.
#[verifier::ext_equal]
pub struct TreeView {
    pub max_depth: int,
    pub entering: Option<(Seq<char>, int)>,
    pub stack: Seq<FrameView>,
}

impl View for TreeWalk {
    type V = TreeView;

    closed spec fn view(&self) -> TreeView {
        TreeView {
            max_depth: self.max_depth as int,
            entering: match self.entering {
                Some(e) => Some((e.dir@, e.depth as int)),
                None => None,
            },
            stack: frame_views(self.stack@),
        }
    }
}

/// What a walk wants next.
pub enum TreeStep {
    /// Nothing: it goes on.
    Quiet,
    /// A line is to be printed.
    Line(String),
    /// The listing of a directory is wanted.
    Open(String),
    /// The walk is over.
    Done,
    /// The walk fails.
    Fail(String),
}

/// A step over mathematical text.
pub enum TreeStepView {
    Quiet,
    Line(Seq<char>),
    Open(Seq<char>),
    Done,
    Fail(Seq<char>),
}

impl View for TreeStep {
    type V = TreeStepView;

    open spec fn view(&self) -> TreeStepView {
        match *self {
            TreeStep::Quiet => TreeStepView::Quiet,
            TreeStep::Line(s) => TreeStepView::Line(s@),
            TreeStep::Open(s) => TreeStepView::Open(s@),
            TreeStep::Done => TreeStepView::Done,
            TreeStep::Fail(s) => TreeStepView::Fail(s@),
        }
    }
}

/// The line of an entry at the given depth.
pub open spec fn tree_line(depth: int, r: RowView) -> Seq<char> {
    repeated(' ', (2 * (depth + 1)) as nat) + pad_left(dec(r.inode as nat), 10, ' ') + " "@
        + type_letter(r.file_type) + " "@ + r.name
}

/// Whether an entry is shown: all are but the two that every directory has.
pub open spec fn is_shown(e: RawEntry) -> bool {
    lossy_text(e.name@) != "."@ && lossy_text(e.name@) != ".."@
}

/// The entries of a directory that are shown.
pub open spec fn shown_rows(entries: Seq<RawEntry>) -> Seq<RowView>
    decreases entries.len(),
{
    if entries.len() == 0 {
        Seq::empty()
    } else {
        let before = shown_rows(entries.drop_last());
        let e = entries.last();
        if is_shown(e) {
            before.push(
                RowView { inode: e.inode, file_type: e.file_type, name: lossy_text(e.name@) },
            )
        } else {
            before
        }
    }
}

/// A walk from the root.
pub open spec fn tree_root(max_depth: int) -> TreeView {
    TreeView { max_depth, entering: Some(("/"@, 0)), stack: Seq::empty() }
}

/// One step of a walk: what it wants, and where it then is.
pub open spec fn tree_next(t: TreeView) -> (TreeStepView, TreeView) {
    match t.entering {
        Some((dir, depth)) => if depth >= t.max_depth {
            (TreeStepView::Quiet, TreeView { entering: None, ..t })
        } else if has_nul(dir) {
            (TreeStepView::Fail("path contains NUL byte"@), t)
        } else {
            (TreeStepView::Open(dir), t)
        },
        None => if t.stack.len() == 0 {
            (TreeStepView::Done, t)
        } else {
            let top = t.stack.last();
            if top.next >= top.rows.len() {
                (TreeStepView::Quiet, TreeView { stack: t.stack.drop_last(), ..t })
            } else {
                let r = top.rows[top.next];
                let moved = t.stack.drop_last().push(FrameView { next: top.next + 1, ..top });
                let entering = if r.file_type == 2 {
                    Some((below(top.dir, r.name), top.depth + 1))
                } else {
                    None
                };
                (
                    TreeStepView::Line(tree_line(top.depth, r)),
                    TreeView { entering, stack: moved, ..t },
                )
            }
        },
    }
}

/// The walk once the listing of the directory came that it is about to enter,
/// or could not be had.
pub open spec fn tree_listed(t: TreeView, listing: Option<Seq<RawEntry>>) -> TreeView {
    match (t.entering, listing) {
        (Some((dir, depth)), Some(entries)) => if depth < t.max_depth {
            TreeView {
                entering: None,
                stack: t.stack.push(
                    FrameView { dir, depth, rows: shown_rows(entries), next: 0 },
                ),
                ..t
            }
        } else {
            TreeView { entering: None, ..t }
        },
        _ => TreeView { entering: None, ..t },
    }
}

fn indent(depth: u32) -> (out: String)
    ensures
        out@ == repeated(' ', (2 * (depth + 1)) as nat),
{
    let count: u64 = depth as u64 + 1;
    let mut out = String::new();
    for i in 0..count
        invariant
            out@ == repeated(' ', (2 * i) as nat),
    {
        out.push(' ');
        out.push(' ');
        proof {
            assert(out@ =~= repeated(' ', (2 * (i + 1)) as nat));
        }
    }
    out
}

fn line_of(depth: u32, r: &Row) -> (line: String)
    ensures
        line@ == tree_line(depth as int, r@),
{
    let mut line = indent(depth);
    line.append(padded_left(dec_text(r.inode as u64).as_str(), 10, ' ').as_str());
    line.append(" ");
    line.append(ftype_str(r.file_type));
    line.append(" ");
    line.append(r.name.as_str());
    line
}

fn rows_of(entries: &[RawEntry]) -> (out: Vec<Row>)
    ensures
        row_views(out@) == shown_rows(entries@),
{
    let mut out: Vec<Row> = Vec::new();
    proof {
        assert(row_views(out@) =~= shown_rows(entries@.take(0)));
    }
    for i in 0..entries.len()
        invariant
            row_views(out@) == shown_rows(entries@.take(i as int)),
    {
        let e = &entries[i];
        let name = lossy_str(e.name.as_slice());
        proof {
            assert(entries@.take(i + 1).drop_last() =~= entries@.take(i as int));
            assert(entries@.take(i + 1).last() == *e);
        }
        if !same_str(name.as_str(), ".") && !same_str(name.as_str(), "..") {
            let ghost prior = out@;
            let row = Row { inode: e.inode, file_type: e.file_type, name };
            out.push(row);
            proof {
                assert(row_views(out@) =~= row_views(prior).push(row@));
            }
        }
    }
    proof {
        assert(entries@.take(entries@.len() as int) =~= entries@);
    }
    out
}

impl TreeWalk {
    /// No directory on the stack is deeper than the walk may go.
    #[verifier::type_invariant]
    closed spec fn bounded(self) -> bool {
        forall|i: int| 0 <= i < self.stack@.len() ==> (#[trigger] self.stack@[i]).depth
            < self.max_depth
    }

    /// A walk from the root that goes `max_depth` directories deep.
    pub fn from_root(max_depth: u32) -> (walk: TreeWalk)
        ensures
            walk@ == tree_root(max_depth as int),
    {
        let walk = TreeWalk {
            max_depth,
            entering: Some(Entering { dir: "/".to_owned(), depth: 0 }),
            stack: Vec::new(),
        };
        proof {
            assert(walk@.stack =~= Seq::empty());
        }
        walk
    }

    /// Goes one step on.
    pub fn next(self) -> (out: (TreeStep, TreeWalk))
        ensures
            (out.0@, out.1@) == tree_next(self@),
    {
        proof {
            use_type_invariant(&self);
        }
        let TreeWalk { max_depth, entering, stack } = self;
        if let Some(e) = entering {
            if e.depth >= max_depth {
                return (TreeStep::Quiet, TreeWalk { max_depth, entering: None, stack });
            }
            if contains_nul(e.dir.as_str()) {
                return (
                    TreeStep::Fail("path contains NUL byte".to_owned()),
                    TreeWalk { max_depth, entering: Some(e), stack },
                );
            }
            let dir = e.dir.clone();
            return (TreeStep::Open(dir), TreeWalk { max_depth, entering: Some(e), stack });
        }
        let mut stack = stack;
        let ghost frames = stack@;
        let top = match stack.pop() {
            None => {
                return (TreeStep::Done, TreeWalk { max_depth, entering: None, stack });
            },
            Some(top) => top,
        };
        let ghost was = top@;
        proof {
            assert(frames.last() == top);
            assert(frame_views(stack@) =~= frame_views(frames).drop_last());
            assert(frame_views(frames).last() == was);
        }
        if top.next >= top.rows.len() {
            return (TreeStep::Quiet, TreeWalk { max_depth, entering: None, stack });
        }
        let mut top = top;
        let r = &top.rows[top.next];
        proof {
            assert(was.rows[was.next] == r@);
        }
        let line = line_of(top.depth, r);
        let entering = if r.file_type == 2 {
            Some(
                Entering {
                    dir: path_below(top.dir.as_str(), r.name.as_str()),
                    depth: top.depth + 1,
                },
            )
        } else {
            None
        };
        top.next = top.next + 1;
        let ghost below_top = stack@;
        stack.push(top);
        proof {
            assert(frame_views(stack@) =~= frame_views(below_top).push(
                FrameView { next: was.next + 1, ..was },
            ));
        }
        (TreeStep::Line(line), TreeWalk { max_depth, entering, stack })
    }

    /// Takes the listing of the directory that the walk is about to enter, or
    /// `None` where it could not be opened; the walk then goes on without it,
    /// and the warning that is returned says so.
    pub fn on_listing(self, listing: Option<&[RawEntry]>, reason: &str) -> (out: (
        Option<String>,
        TreeWalk,
    ))
        ensures
            out.1@ == tree_listed(
                self@,
                match listing {
                    Some(entries) => Some(entries@),
                    None => None,
                },
            ),
            match (self@.entering, listing) {
                (Some((dir, depth)), None) => out.0 matches Some(w) && w@ == tree_warning(
                    dir,
                    reason@,
                ),
                _ => out.0 is None,
            },
    {
        proof {
            use_type_invariant(&self);
        }
        let TreeWalk { max_depth, entering, stack } = self;
        let e = match entering {
            None => {
                return (None, TreeWalk { max_depth, entering: None, stack });
            },
            Some(e) => e,
        };
        let entries = match listing {
            None => {
                let mut w = "  (".to_owned();
                w.append(call_failed("dir_open", e.dir.as_str(), reason).as_str());
                w.append(")");
                return (Some(w), TreeWalk { max_depth, entering: None, stack });
            },
            Some(entries) => entries,
        };
        if e.depth >= max_depth {
            return (None, TreeWalk { max_depth, entering: None, stack });
        }
        let mut stack = stack;
        let ghost frames = stack@;
        let frame = Frame { dir: e.dir, depth: e.depth, rows: rows_of(entries), next: 0 };
        stack.push(frame);
        proof {
            assert(frame_views(stack@) =~= frame_views(frames).push(frame@));
        }
        (None, TreeWalk { max_depth, entering: None, stack })
    }
}

/// The first line of the tree, which is the root, and the walk that writes the
/// rest.
pub fn tree(max_depth: u32) -> (out: (String, TreeWalk))
    ensures
        out.0@ == "/"@,
        out.1@ == tree_root(max_depth as int),
{
    ("/".to_owned(), TreeWalk::from_root(max_depth))
}

/// The warning about a directory that could not be opened.
pub open spec fn tree_warning(dir: Seq<char>, reason: Seq<char>) -> Seq<char> {
    "  ("@ + call_failure("dir_open"@, dir, reason) + ")"@
}

// ---------------------------------------------------------------------------
// What a walk prints, all in all
// ---------------------------------------------------------------------------

/// A volume as the tree sees it: the listing of each directory, or why there
/// is none.
pub struct Listings {
    pub entries: spec_fn(Seq<char>) -> Option<Seq<RawEntry>>,
    pub reason: spec_fn(Seq<char>) -> Seq<char>,
}

/// Something that a walk writes.
pub enum Output {
    Line(Seq<char>),
    Warning(Seq<char>),
}

/// All that is written, and whether it goes on behind it: a walk that meets a
/// name with a NUL fails there.
pub struct Written {
    pub output: Seq<Output>,
    pub goes_on: bool,
}

/// `a`, and `b` behind it unless `a` failed.
pub open spec fn followed_by(a: Written, b: Written) -> Written {
    if a.goes_on {
        Written { output: a.output + b.output, goes_on: b.goes_on }
    } else {
        a
    }
}

/// Nothing.
pub open spec fn nothing() -> Written {
    Written { output: Seq::empty(), goes_on: true }
}

/// One piece of output.
pub open spec fn just(o: Output) -> Written {
    Written { output: seq![o], goes_on: true }
}

/// What is written of a directory at the given depth: a line for each entry,
/// and behind a subdirectory what is written of it.
pub open spec fn tree_of(v: Listings, dir: Seq<char>, depth: int, max_depth: int) -> Written
    decreases
            if depth < max_depth {
                max_depth - depth
            } else {
                0
            },
            0int,
{
    if depth >= max_depth {
        nothing()
    } else if has_nul(dir) {
        Written { output: Seq::empty(), goes_on: false }
    } else {
        match (v.entries)(dir) {
            None => just(Output::Warning(tree_warning(dir, (v.reason)(dir)))),
            Some(entries) => rows_from(v, dir, depth, max_depth, shown_rows(entries), 0),
        }
    }
}

/// What is written of the entries of a directory from `i` on.
pub open spec fn rows_from(
    v: Listings,
    dir: Seq<char>,
    depth: int,
    max_depth: int,
    rows: Seq<RowView>,
    i: int,
) -> Written
    decreases
            if depth + 1 < max_depth {
                max_depth - depth - 1
            } else {
                0
            },
            1int
                + if i < rows.len() {
                rows.len() - i
            } else {
                0
            },
{
    if i >= rows.len() || i < 0 {
        nothing()
    } else {
        let r = rows[i];
        let line = just(Output::Line(tree_line(depth, r)));
        let sub = if r.file_type == 2 {
            tree_of(v, below(dir, r.name), depth + 1, max_depth)
        } else {
            nothing()
        };
        followed_by(
            line,
            followed_by(sub, rows_from(v, dir, depth, max_depth, rows, i + 1)),
        )
    }
}

/// What the directories on a stack still write, the last one first.
pub open spec fn stack_rest(v: Listings, stack: Seq<FrameView>, max_depth: int) -> Written
    decreases stack.len(),
{
    if stack.len() == 0 {
        nothing()
    } else {
        let top = stack.last();
        followed_by(
            rows_from(v, top.dir, top.depth, max_depth, top.rows, top.next),
            stack_rest(v, stack.drop_last(), max_depth),
        )
    }
}

/// What a walk still writes.
pub open spec fn walk_rest(v: Listings, t: TreeView) -> Written {
    followed_by(
        match t.entering {
            Some((dir, depth)) => tree_of(v, dir, depth, t.max_depth),
            None => nothing(),
        },
        stack_rest(v, t.stack, t.max_depth),
    )
}

proof fn lemma_followed_by_associates(a: Written, b: Written, c: Written)
    ensures
        followed_by(followed_by(a, b), c) == followed_by(a, followed_by(b, c)),
{
    if a.goes_on && b.goes_on {
        assert((a.output + b.output) + c.output =~= a.output + (b.output + c.output));
    }
}

proof fn lemma_nothing_first(a: Written)
    ensures
        followed_by(nothing(), a) == a,
{
    assert(Seq::<Output>::empty() + a.output =~= a.output);
}

proof fn lemma_nothing_last(a: Written)
    ensures
        followed_by(a, nothing()) == a,
{
    assert(a.output + Seq::<Output>::empty() =~= a.output);
}

/// Whether frames stand at entries that they have.
pub open spec fn frames_ok(t: TreeView) -> bool {
    forall|i: int|
        0 <= i < t.stack.len() ==> 0 <= (#[trigger] t.stack[i]).next && t.stack[i].depth
            < t.max_depth
}

/// A walk writes what the tree of the volume is: the root's tree is what a
/// walk from the root still has to write, and each step writes the first piece
/// of what is left, or leaves it all. A walk that is done has nothing left;
/// one that fails has nothing left before the name that it fails at.
#[verifier::rlimit(40)]
pub proof fn law_walk_writes_the_tree(v: Listings, t: TreeView)
    requires
        frames_ok(t),
    ensures
        walk_rest(v, tree_root(t.max_depth)) == tree_of(v, "/"@, 0, t.max_depth),
        frames_ok(tree_root(t.max_depth)),
        ({
            let (step, after) = tree_next(t);
            &&& frames_ok(after)
            &&& match step {
                TreeStepView::Quiet => walk_rest(v, t) == walk_rest(v, after),
                TreeStepView::Line(s) => walk_rest(v, t) == followed_by(
                    just(Output::Line(s)),
                    walk_rest(v, after),
                ),
                TreeStepView::Open(dir) => {
                    let told = tree_listed(after, (v.entries)(dir));
                    &&& frames_ok(told)
                    &&& walk_rest(v, t) == followed_by(
                        if (v.entries)(dir) is None {
                            just(Output::Warning(tree_warning(dir, (v.reason)(dir))))
                        } else {
                            nothing()
                        },
                        walk_rest(v, told),
                    )
                },
                TreeStepView::Done => walk_rest(v, t) == nothing(),
                TreeStepView::Fail(_) => walk_rest(v, t).output.len() == 0 && !walk_rest(
                    v,
                    t,
                ).goes_on,
            }
        }),
{
    lemma_nothing_last(tree_of(v, "/"@, 0, t.max_depth));
    let (step, after) = tree_next(t);
    let rest = stack_rest(v, t.stack, t.max_depth);
    lemma_nothing_first(rest);
    match t.entering {
        Some((dir, depth)) => {
            if depth >= t.max_depth {
                assert(walk_rest(v, after) == rest);
            } else if has_nul(dir) {
            } else {
                let told = tree_listed(after, (v.entries)(dir));
                match (v.entries)(dir) {
                    None => {
                        lemma_nothing_first(rest);
                    },
                    Some(entries) => {
                        let frame = FrameView { dir, depth, rows: shown_rows(entries), next: 0 };
                        assert(told.stack.drop_last() =~= t.stack);
                        assert(told.stack.last() == frame);
                        lemma_nothing_first(stack_rest(v, told.stack, t.max_depth));
                        lemma_nothing_first(walk_rest(v, told));
                        assert forall|i: int| 0 <= i < told.stack.len() implies 0 <= (
                        #[trigger] told.stack[i]).next && told.stack[i].depth < told.max_depth by {
                            if i < t.stack.len() {
                                assert(told.stack[i] == t.stack[i]);
                            }
                        }
                    },
                }
            }
        },
        None => {
            if t.stack.len() > 0 {
                let top = t.stack.last();
                assert(t.stack[t.stack.len() - 1] == top);
                let under = stack_rest(v, t.stack.drop_last(), t.max_depth);
                if top.next >= top.rows.len() {
                    lemma_nothing_first(under);
                    assert(after.stack == t.stack.drop_last());
                    assert forall|i: int| 0 <= i < after.stack.len() implies 0 <= (
                    #[trigger] after.stack[i]).next && after.stack[i].depth < after.max_depth by {
                        assert(after.stack[i] == t.stack[i]);
                    }
                } else {
                    let r = top.rows[top.next];
                    let line = just(Output::Line(tree_line(top.depth, r)));
                    let sub = if r.file_type == 2 {
                        tree_of(v, below(top.dir, r.name), top.depth + 1, t.max_depth)
                    } else {
                        nothing()
                    };
                    let more = rows_from(
                        v,
                        top.dir,
                        top.depth,
                        t.max_depth,
                        top.rows,
                        top.next + 1,
                    );
                    assert(after.stack.drop_last() =~= t.stack.drop_last());
                    assert(after.stack.last() == (FrameView { next: top.next + 1, ..top }));
                    lemma_followed_by_associates(line, followed_by(sub, more), under);
                    lemma_followed_by_associates(sub, more, under);
                    assert forall|i: int| 0 <= i < after.stack.len() implies 0 <= (
                    #[trigger] after.stack[i]).next && after.stack[i].depth < after.max_depth by {
                        if i < t.stack.len() - 1 {
                            assert(after.stack[i] == t.stack[i]);
                        }
                    }
                }
            }
        },
    }
}

/// The tree leaves out exactly the two entries that every directory has: the one
/// called by one dot and the one called by two. Every other entry is there, with
/// its inode, its type and its name, also one whose name starts with a dot, and
/// they keep the order of the listing.
#[verifier::rlimit(40)]
pub proof fn law_tree_shows_all_but_the_dots(entries: Seq<RawEntry>)
    ensures
        shown_rows(entries) == entries.filter(
            |e: RawEntry|
                lossy_text(e.name@) != seq!['.'] && lossy_text(e.name@) != seq!['.', '.'],
        ).map_values(
            |e: RawEntry|
                RowView { inode: e.inode, file_type: e.file_type, name: lossy_text(e.name@) },
        ),
        forall|i: int|
            0 <= i < entries.len() && lossy_text((#[trigger] entries[i]).name@) != seq!['.']
                && lossy_text(entries[i].name@) != seq!['.', '.'] ==> shown_rows(entries).contains(
                RowView {
                    inode: entries[i].inode,
                    file_type: entries[i].file_type,
                    name: lossy_text(entries[i].name@),
                },
            ),
        forall|r: RowView| #[trigger]
            shown_rows(entries).contains(r) ==> r.name != seq!['.'] && r.name != seq!['.', '.'],
    decreases entries.len(),
{
    reveal(Seq::filter);
    reveal_strlit(".");
    reveal_strlit("..");
    assert("."@ =~= seq!['.']);
    assert(".."@ =~= seq!['.', '.']);
    let keep = |e: RawEntry|
        lossy_text(e.name@) != seq!['.'] && lossy_text(e.name@) != seq!['.', '.'];
    let row = |e: RawEntry|
        RowView { inode: e.inode, file_type: e.file_type, name: lossy_text(e.name@) };
    if entries.len() > 0 {
        law_tree_shows_all_but_the_dots(entries.drop_last());
        let kept = entries.drop_last().filter(keep);
        assert(kept.push(entries.last()).map_values(row) =~= kept.map_values(row).push(
            row(entries.last()),
        ));
    }
    let rows = shown_rows(entries);
    assert(rows =~= entries.filter(keep).map_values(row));
    if entries.len() > 0 {
        let before = shown_rows(entries.drop_last());
        assert forall|i: int| 0 <= i < entries.len() && keep(#[trigger] entries[i]) implies rows.contains(
            row(entries[i]),
        ) by {
            if i < entries.len() - 1 {
                assert(entries.drop_last()[i] == entries[i]);
                let k = choose|k: int| 0 <= k < before.len() && before[k] == row(entries[i]);
                assert(rows[k] == row(entries[i]));
            } else {
                assert(rows.last() == row(entries[i]));
            }
        }
        assert forall|r: RowView| #[trigger] rows.contains(r) implies r.name != seq!['.'] && r.name
            != seq!['.', '.'] by {
            let k = choose|k: int| 0 <= k < rows.len() && rows[k] == r;
            if k < before.len() {
                assert(before.contains(before[k]));
            }
        }
    }
}

/// Listings one behind the other give their rows one behind the other, and a
/// listing of one entry gives its row unless it is one of the two.
pub proof fn law_rows_keep_the_order(a: Seq<RawEntry>, b: Seq<RawEntry>, e: RawEntry)
    ensures
        shown_rows(a + b) == shown_rows(a) + shown_rows(b),
        shown_rows(seq![e]) == if lossy_text(e.name@) == seq!['.'] || lossy_text(e.name@) == seq![
            '.',
            '.',
        ] {
            Seq::empty()
        } else {
            seq![RowView { inode: e.inode, file_type: e.file_type, name: lossy_text(e.name@) }]
        },
    decreases b.len(),
{
    reveal_strlit(".");
    reveal_strlit("..");
    assert("."@ =~= seq!['.']);
    assert(".."@ =~= seq!['.', '.']);
    reveal_with_fuel(shown_rows, 2);
    assert(seq![e].drop_last() =~= Seq::empty());
    if b.len() == 0 {
        assert(a + b =~= a);
    } else {
        law_rows_keep_the_order(a, b.drop_last(), e);
        assert((a + b).drop_last() =~= a + b.drop_last());
        assert((a + b).last() == b.last());
    }
    assert(shown_rows(a + b) =~= shown_rows(a) + shown_rows(b));
}

/// The line of an entry is set in by two spaces for each level, the first level
/// among them, and then tells the inode, the type and the name.
pub proof fn law_tree_lines(depth: nat, r: RowView)
    ensures
        tree_line(depth as int, r) == Seq::new(2 * (depth + 1), |i: int| ' ') + pad_left(
            dec(r.inode as nat),
            10,
            ' ',
        ) + seq![' '] + type_letter(r.file_type) + seq![' '] + r.name,
{
    reveal_strlit(" ");
    assert(" "@ =~= seq![' ']);
    assert(repeated(' ', 2 * (depth + 1)) =~= Seq::new(2 * (depth + 1), |i: int| ' '));
}

/// The tree below a directory: it is written where the depth allows it, and each
/// of its rows gives its own line and, exactly where it is a directory, the tree
/// below its path, one level deeper, before the next row. A directory that cannot
/// be listed gives a warning, and a path with a NUL ends the walk. The walk of a
/// volume starts at its root.
#[verifier::rlimit(40)]
pub proof fn law_tree_descends_into_directories(
    v: Listings,
    dir: Seq<char>,
    depth: int,
    max_depth: int,
    rows: Seq<RowView>,
    i: int,
)
    ensures
        walk_rest(v, tree_root(max_depth)) == tree_of(v, seq!['/'], 0, max_depth),
        depth >= max_depth ==> tree_of(v, dir, depth, max_depth) == (Written {
            output: Seq::empty(),
            goes_on: true,
        }),
        depth < max_depth && dir.contains('\0') ==> tree_of(v, dir, depth, max_depth) == (Written {
            output: Seq::empty(),
            goes_on: false,
        }),
        depth < max_depth && !dir.contains('\0') ==> match (v.entries)(dir) {
            Some(entries) => tree_of(v, dir, depth, max_depth) == rows_from(
                v,
                dir,
                depth,
                max_depth,
                shown_rows(entries),
                0,
            ),
            None => tree_of(v, dir, depth, max_depth) == (Written {
                output: seq![
                    Output::Warning(
                        "  ("@ + call_failure("dir_open"@, dir, (v.reason)(dir)) + ")"@,
                    ),
                ],
                goes_on: true,
            }),
        },
        0 <= i < rows.len() ==> {
            let here = rows_from(v, dir, depth, max_depth, rows, i);
            let next = rows_from(v, dir, depth, max_depth, rows, i + 1);
            let path = if dir.len() > 0 && dir.last() == '/' {
                dir + rows[i].name
            } else {
                dir + seq!['/'] + rows[i].name
            };
            let sub = tree_of(v, path, depth + 1, max_depth);
            let line = seq![Output::Line(tree_line(depth, rows[i]))];
            &&& rows[i].file_type != 2 ==> here.output == line + next.output && here.goes_on
                == next.goes_on
            &&& rows[i].file_type == 2 && sub.goes_on ==> here.output == line + sub.output
                + next.output && here.goes_on == next.goes_on
            &&& rows[i].file_type == 2 && !sub.goes_on ==> here.output == line + sub.output
                && !here.goes_on
        },
        i >= rows.len() ==> rows_from(v, dir, depth, max_depth, rows, i) == (Written {
            output: Seq::empty(),
            goes_on: true,
        }),
{
    reveal_strlit("/");
    assert("/"@ =~= seq!['/']);
    lemma_nothing_last(tree_of(v, "/"@, 0, max_depth));
    if 0 <= i < rows.len() {
        let next = rows_from(v, dir, depth, max_depth, rows, i + 1);
        let path = below(dir, rows[i].name);
        let sub = tree_of(v, path, depth + 1, max_depth);
        let line = seq![Output::Line(tree_line(depth, rows[i]))];
        lemma_nothing_first(next);
        assert(line + sub.output + next.output =~= line + (sub.output + next.output));
    }
}

/// A step of the walk and a row are seen as what they hold, and a list of rows
/// row by row.
pub proof fn law_tree_steps_are_seen_as_they_are(step: TreeStep, rows: Seq<Row>, i: int)
    ensures
        match step {
            TreeStep::Quiet => step@ == TreeStepView::Quiet,
            TreeStep::Line(s) => step@ == TreeStepView::Line(s@),
            TreeStep::Open(s) => step@ == TreeStepView::Open(s@),
            TreeStep::Done => step@ == TreeStepView::Done,
            TreeStep::Fail(s) => step@ == TreeStepView::Fail(s@),
        },
        row_views(rows).len() == rows.len(),
        0 <= i < rows.len() ==> row_views(rows)[i] == (RowView {
            inode: rows[i].inode,
            file_type: rows[i].file_type,
            name: rows[i].name@,
        }),
{
}

}
