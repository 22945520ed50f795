//! The directory walk that builds the initial queue, and time formatting.
//!
//! The walk is a depth-first traversal over a worklist of directories and a
//! stack of files to yield. The host performs the actual directory listing
//! and feeds each result back in; the traversal logic — which paths are
//! queued for exploration, which are yielded, and in what order — lives here.

use crate::model::Track;
use vstd::prelude::*;
use vstd::string::StringExecFns;

verus! {

/// What kind of thing one directory entry is.
#[derive(Debug, Clone, Copy, PartialEq, Eq, Structural)]
pub enum EntryKind {
    File,
    Directory,
    Other,
}

/// One listed directory entry: its full path and its kind.
pub struct DirEntry {
    pub path: String,
    pub kind: EntryKind,
}

/// The full paths of the entries of one kind, in listing order.
pub open spec fn paths_of_kind(entries: Seq<DirEntry>, kind: EntryKind) -> Seq<String>
    decreases entries.len(),
{
    if entries.len() == 0 {
        Seq::<String>::empty()
    } else {
        let rest = paths_of_kind(entries.drop_last(), kind);
        if entries.last().kind == kind {
            rest.push(entries.last().path)
        } else {
            rest
        }
    }
}

/// The state of a depth-first walk over a directory tree.
pub struct IterAllChildren {
    /// Mostly for printing information.
    pub root: String,
    /// Directories to explore.
    pub to_explore: Vec<String>,
    /// Children to yield.
    pub to_yield: Vec<String>,
}

/// A walk of everything under `root`: the root is the one directory left to
/// explore and nothing is ready to yield yet.
pub fn get_all_children(root: String) -> (r: IterAllChildren)
    ensures
        r.root@ == root@,
        r.to_explore@.len() == 1 && r.to_explore@[0]@ == root@,
        r.to_yield@ == Seq::<String>::empty(),
{
    let mut to_explore: Vec<String> = Vec::new();
    let root_copy = String::from_str(root.as_str());
    to_explore.push(root_copy);
    IterAllChildren { root, to_explore, to_yield: Vec::new() }
}

impl IterAllChildren {
    /// Take the next directory the walk wants listed, if any is left.
    pub fn take_dir(&mut self) -> (r: Option<String>)
        ensures
            final(self).root == old(self).root,
            final(self).to_yield@ == old(self).to_yield@,
            match r {
                Some(dir) => old(self).to_explore@.len() > 0 && dir == old(
                    self,
                ).to_explore@.last() && final(self).to_explore@ == old(
                    self,
                ).to_explore@.drop_last(),
                None => old(self).to_explore@.len() == 0 && final(self).to_explore@ == old(
                    self,
                ).to_explore@,
            },
    {
        let r = self.to_explore.pop();
        proof {
            if r is Some {
                assert(self.to_explore@ =~= old(self).to_explore@.drop_last());
            }
        }
        r
    }

    /// Feed back what listing one directory produced: its subdirectories are
    /// queued for exploration and its files for yielding, in listing order;
    /// anything else is skipped. A directory whose listing failed is simply
    /// never fed back.
    pub fn note_entries(&mut self, entries: Vec<DirEntry>)
        ensures
            final(self).root == old(self).root,
            final(self).to_explore@ == old(self).to_explore@ + paths_of_kind(
                entries@,
                EntryKind::Directory,
            ),
            final(self).to_yield@ == old(self).to_yield@ + paths_of_kind(
                entries@,
                EntryKind::File,
            ),
    {
        let ghost all = entries@;
        let mut entries = entries;
        let ghost explore0 = self.to_explore@;
        let ghost yield0 = self.to_yield@;
        let ghost mut seen: int = 0;
        proof {
            assert(all.subrange(0, 0) =~= Seq::<DirEntry>::empty());
            assert(self.to_explore@ =~= explore0 + paths_of_kind(
                all.subrange(0, 0),
                EntryKind::Directory,
            ));
            assert(self.to_yield@ =~= yield0 + paths_of_kind(all.subrange(0, 0), EntryKind::File));
        }
        while entries.len() > 0
            invariant
                0 <= seen,
                seen + entries@.len() == all.len(),
                entries@ == all.subrange(seen, all.len() as int),
                self.root == old(self).root,
                self.to_explore@ == explore0 + paths_of_kind(
                    all.subrange(0, seen),
                    EntryKind::Directory,
                ),
                self.to_yield@ == yield0 + paths_of_kind(all.subrange(0, seen), EntryKind::File),
            decreases entries.len(),
        {
            let entry = entries.remove(0);
            let ghost e = entry;
            match entry.kind {
                EntryKind::Directory => {
                    self.to_explore.push(entry.path);
                },
                EntryKind::File => {
                    self.to_yield.push(entry.path);
                },
                EntryKind::Other => {},
            }
            proof {
                assert(all.subrange(0, seen + 1).drop_last() =~= all.subrange(0, seen));
                assert(all.subrange(0, seen + 1).last() == e);
                seen = seen + 1;
                assert(entries@ =~= all.subrange(seen, all.len() as int));
            }
        }
        proof {
            assert(all.subrange(0, seen) =~= all);
        }
    }

    /// Yield the next file found, newest first, if one is ready.
    pub fn next_file(&mut self) -> (r: Option<String>)
        ensures
            final(self).root == old(self).root,
            final(self).to_explore@ == old(self).to_explore@,
            match r {
                Some(path) => old(self).to_yield@.len() > 0 && path == old(
                    self,
                ).to_yield@.last() && final(self).to_yield@ == old(self).to_yield@.drop_last(),
                None => old(self).to_yield@.len() == 0 && final(self).to_yield@ == old(
                    self,
                ).to_yield@,
            },
    {
        let r = self.to_yield.pop();
        proof {
            if r is Some {
                assert(self.to_yield@ =~= old(self).to_yield@.drop_last());
            }
        }
        r
    }
}

/// The decimal digit for one value.
pub open spec fn dec_digit(d: int) -> char {
    if d == 0 {
        '0'
    } else if d == 1 {
        '1'
    } else if d == 2 {
        '2'
    } else if d == 3 {
        '3'
    } else if d == 4 {
        '4'
    } else if d == 5 {
        '5'
    } else if d == 6 {
        '6'
    } else if d == 7 {
        '7'
    } else if d == 8 {
        '8'
    } else {
        '9'
    }
}

/// The decimal digits of `n`, most significant first.
pub open spec fn dec_string(n: int) -> Seq<char>
    decreases n,
{
    if n < 10 {
        seq![dec_digit(n)]
    } else {
        dec_string(n / 10).push(dec_digit(n % 10))
    }
}

/// `n` in decimal, padded with one leading zero under 10.
pub open spec fn pad2(n: int) -> Seq<char> {
    if n < 10 {
        seq!['0'] + dec_string(n)
    } else {
        dec_string(n)
    }
}

/// A second count as it is displayed: `h:mm:ss` from a full hour up,
/// `m:ss` below (with the minute field counting total minutes).
pub open spec fn time_display(seconds: int) -> Seq<char> {
    if seconds >= 3600 {
        dec_string(seconds / 3600) + seq![':'] + pad2(seconds / 60) + seq![':'] + pad2(
            seconds % 60,
        )
    } else {
        dec_string(seconds / 60) + seq![':'] + pad2(seconds % 60)
    }
}

fn digit_str(d: u64) -> (s: &'static str)
    requires
        d < 10,
    ensures
        s@ == seq![dec_digit(d as int)],
{
    let s: &'static str = match d {
        0 => "0",
        1 => "1",
        2 => "2",
        3 => "3",
        4 => "4",
        5 => "5",
        6 => "6",
        7 => "7",
        8 => "8",
        _ => "9",
    };
    proof {
        reveal_strlit("0");
        reveal_strlit("1");
        reveal_strlit("2");
        reveal_strlit("3");
        reveal_strlit("4");
        reveal_strlit("5");
        reveal_strlit("6");
        reveal_strlit("7");
        reveal_strlit("8");
        reveal_strlit("9");
        assert(s@ =~= seq![dec_digit(d as int)]);
    }
    s
}

fn u64_to_decimal(n: u64) -> (s: String)
    ensures
        s@ == dec_string(n as int),
    decreases n,
{
    if n < 10 {
        String::from_str(digit_str(n))
    } else {
        let mut s = u64_to_decimal(n / 10);
        s.append(digit_str(n % 10));
        proof {
            assert(s@ =~= dec_string(n as int));
        }
        s
    }
}

fn pad2_string(n: u64) -> (s: String)
    ensures
        s@ == pad2(n as int),
{
    if n < 10 {
        let mut s = String::from_str("0");
        s.append(digit_str(n));
        proof {
            reveal_strlit("0");
            assert(s@ =~= pad2(n as int));
        }
        s
    } else {
        u64_to_decimal(n)
    }
}

/// Render a second count for display, exactly as [`time_display`] says.
pub fn format_symphonia_time(seconds: u64) -> (s: String)
    ensures
        s@ == time_display(seconds as int),
{
    if seconds >= 3600 {
        let mut s = u64_to_decimal(seconds / 3600);
        s.append(":");
        let minutes = pad2_string(seconds / 60);
        s.append(minutes.as_str());
        s.append(":");
        let secs = pad2_string(seconds % 60);
        s.append(secs.as_str());
        proof {
            reveal_strlit(":");
            assert(s@ =~= time_display(seconds as int));
        }
        s
    } else {
        let mut s = u64_to_decimal(seconds / 60);
        s.append(":");
        let secs = pad2_string(seconds % 60);
        s.append(secs.as_str());
        proof {
            reveal_strlit(":");
            assert(s@ =~= time_display(seconds as int));
        }
        s
    }
}

/// Wrap the files a finished walk yielded as queue entries.
pub fn tracks_from_paths(paths: Vec<String>) -> (r: Vec<Track>)
    ensures
        r@.len() == paths@.len(),
        forall|i: int| 0 <= i < paths@.len() ==> (#[trigger] r@[i]).path == paths@[i],
{
    let mut out: Vec<Track> = Vec::new();
    let mut paths = paths;
    let ghost all = paths@;
    while paths.len() > 0
        invariant
            out@.len() + paths@.len() == all.len(),
            paths@ == all.subrange(out@.len() as int, all.len() as int),
            forall|i: int| 0 <= i < out@.len() ==> (#[trigger] out@[i]).path == all[i],
        decreases paths.len(),
    {
        let path = paths.remove(0);
        out.push(Track { path });
        proof {
            assert(paths@ =~= all.subrange(out@.len() as int, all.len() as int));
        }
    }
    out
}

} // verus!
