use vstd::prelude::*;

use crate::error::{ErrorKind, ToolError};
use crate::text::{push_str, string_of};

verus! {

/// Listing arguments: the directory.
#[derive(Debug)]
pub struct DirectoryListTool {
    pub path: String,
}

/// One directory entry: its file name and whether it is a directory.
#[derive(Debug)]
pub struct DirectoryEntry {
    pub name: String,
    pub is_dir: bool,
}

/// The listing of `entries`: each name, with `/` after directories, on a line of its own.
pub open spec fn listing(entries: Seq<(Seq<char>, bool)>) -> Seq<char>
    decreases entries.len(),
{
    if entries.len() == 0 {
        Seq::empty()
    } else {
        let e = entries.last();
        listing(entries.drop_last()) + e.0 + if e.1 {
            seq!['/', '\n']
        } else {
            seq!['\n']
        }
    }
}

/// The line one entry is listed on: its name, `/` for a directory, and a newline.
pub open spec fn entry_line(name: Seq<char>, is_dir: bool) -> Seq<char> {
    if is_dir {
        name + seq!['/', '\n']
    } else {
        name.push('\n')
    }
}

/// Every entry is listed, whatever its name, each on its own line and in the
/// order read: the listing of one entry is its line, and the listing of two
/// runs of entries is the listing of the first followed by that of the second.
pub proof fn lemma_listing_lists_every_entry(
    a: Seq<(Seq<char>, bool)>,
    b: Seq<(Seq<char>, bool)>,
    name: Seq<char>,
    is_dir: bool,
)
    ensures
        listing(seq![(name, is_dir)]) == entry_line(name, is_dir),
        listing(a + b) == listing(a) + listing(b),
    decreases b.len(),
{
    let one = seq![(name, is_dir)];
    assert(one.drop_last() =~= Seq::<(Seq<char>, bool)>::empty());
    assert(one.last() == (name, is_dir));
    assert(listing(Seq::<(Seq<char>, bool)>::empty()) == Seq::<char>::empty());
    if is_dir {
        assert(listing(one) =~= entry_line(name, is_dir));
    } else {
        assert(listing(one) =~= entry_line(name, is_dir));
    }
    if b.len() == 0 {
        assert(a + b =~= a);
        assert(listing(a) + listing(b) =~= listing(a));
    } else {
        lemma_listing_lists_every_entry(a, b.drop_last(), name, is_dir);
        assert((a + b).drop_last() =~= a + b.drop_last());
        assert((a + b).last() == b.last());
        let e = b.last();
        let tail = if e.1 {
            seq!['/', '\n']
        } else {
            seq!['\n']
        };
        assert(listing(a + b) == listing(a + b.drop_last()) + e.0 + tail);
        assert(listing(b) == listing(b.drop_last()) + e.0 + tail);
        assert(listing(a + b) =~= listing(a) + listing(b));
    }
}

/// The views of directory entries.
pub open spec fn entry_views(v: Seq<DirectoryEntry>) -> Seq<(Seq<char>, bool)> {
    v.map_values(|e: DirectoryEntry| (e.name@, e.is_dir))
}

impl DirectoryListTool {
    /// The listing of the entries read, as `listing` states.
    pub fn render(entries: &Vec<DirectoryEntry>) -> (r: String)
        ensures
            r@ == listing(entry_views(entries@)),
    {
        let ghost ev = entry_views(entries@);
        let mut out: Vec<char> = Vec::new();
        let mut i: usize = 0;
        while i < entries.len()
            invariant
                i <= entries@.len(),
                ev == entry_views(entries@),
                out@ == listing(ev.take(i as int)),
            decreases entries@.len() - i,
        {
            let e = &entries[i];
            push_str(&mut out, e.name.as_str());
            if e.is_dir {
                out.push('/');
            }
            out.push('\n');
            let ghost w = ev.take(i + 1);
            assert(w.drop_last() =~= ev.take(i as int));
            assert(w.last() == (e.name@, e.is_dir));
            proof {
                if e.is_dir {
                    assert(out@ =~= listing(ev.take(i as int)) + e.name@ + seq!['/', '\n']);
                } else {
                    assert(out@ =~= listing(ev.take(i as int)) + e.name@ + seq!['\n']);
                }
            }
            i = i + 1;
        }
        assert(ev.take(entries@.len() as int) =~= ev);
        string_of(&out)
    }

    /// The refusal when the directory cannot be read.
    pub fn read_failure(resolved: &str) -> (r: ToolError)
        ensures
            r.kind == ErrorKind::InvalidRequest,
            r.message@ == "failed to read a directory: "@ + resolved@,
    {
        let mut out: Vec<char> = Vec::new();
        push_str(&mut out, "failed to read a directory: ");
        push_str(&mut out, resolved);
        ToolError::invalid_request(string_of(&out))
    }
}

} // verus!
