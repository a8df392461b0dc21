//! Moving between directories: where a key leads, and where the cursor
//! lands in the listing of the directory that is shown next.
use vstd::prelude::*;
use crate::app::{is_listing_of, App, FileEntry};
use crate::ops::join;
use crate::text::{chars_eq_str, chars_of, rfind, rfind_char, slice_chars, string_of};
use crate::tree::join_path;

verus! {

/// `p` without the slashes it ends with (a lone `/` is kept).
pub open spec fn strip_trailing_slashes(p: Seq<char>) -> Seq<char>
    decreases p.len(),
{
    if p.len() > 1 && p.last() == '/' {
        strip_trailing_slashes(p.drop_last())
    } else {
        p
    }
}

/// The parent directory and the last component of a directory path
/// (`Path::parent` and `Path::file_name`) for paths without `.` or `..`
/// components, as the listing keeps them: `None` for the root and for the
/// empty path.
pub open spec fn dir_parent(p: Seq<char>) -> Option<(Seq<char>, Seq<char>)> {
    let q = strip_trailing_slashes(p);
    let i = rfind_char(q, '/');
    if q.len() == 0 || q == seq!['/'] {
        None
    } else if i < 0 {
        Some((seq![], q))
    } else {
        let head = strip_trailing_slashes(q.take(i));
        Some((if head.len() == 0 { seq!['/'] } else { head }, q.skip(i + 1)))
    }
}

fn strip_slashes(p: &Vec<char>) -> (r: Vec<char>)
    ensures
        r@ == strip_trailing_slashes(p@),
{
    let mut n: usize = p.len();
    assert(p@.take(n as int) =~= p@);
    while n > 1 && p[n - 1] == '/'
        invariant
            n <= p.len(),
            strip_trailing_slashes(p@.take(n as int)) == strip_trailing_slashes(p@),
        decreases n,
    {
        assert(p@.take(n as int).drop_last() =~= p@.take(n - 1));
        n -= 1;
    }
    assert(strip_trailing_slashes(p@.take(n as int)) == p@.take(n as int));
    slice_chars(p, 0, n)
}

/// Executable form of [`dir_parent`].
pub fn parent_and_name(p: &str) -> (r: Option<(String, String)>)
    ensures
        match dir_parent(p@) {
            None => r is None,
            Some((d, n)) => r matches Some((rd, rn)) && rd@ == d && rn@ == n,
        },
{
    let q = strip_slashes(&chars_of(p));
    if q.len() == 0 || chars_eq_str(&q, "/") {
        proof {
            reveal_strlit("/");
        }
        assert("/"@ =~= seq!['/']);
        assert(q@.len() == 0 || q@ =~= seq!['/']);
        return None;
    }
    proof {
        reveal_strlit("/");
        assert("/"@ =~= seq!['/']);
        assert(q@ != seq!['/']);
    }
    let ql = q.len();
    match rfind(&q, '/') {
        None => Some((String::new(), string_of(&q))),
        Some(i) => {
            let head = strip_slashes(&slice_chars(&q, 0, i));
            let name = slice_chars(&q, i + 1, ql);
            assert(name@ =~= q@.skip(i + 1));
            let d = if head.len() == 0 {
                string_of(&chars_of("/"))
            } else {
                string_of(&head)
            };
            proof {
                reveal_strlit("/");
                assert(q@.subrange(0, i as int) =~= q@.take(i as int));
                if head@.len() == 0 {
                    assert(d@ =~= seq!['/']);
                }
            }
            Some((d, string_of(&name)))
        },
    }
}

proof fn lemma_rfind_after_slash(a: Seq<char>, b: Seq<char>)
    requires
        forall|k: int| 0 <= k < b.len() ==> b[k] != '/',
    ensures
        rfind_char(a + seq!['/'] + b, '/') == a.len(),
    decreases b.len(),
{
    let s = a + seq!['/'] + b;
    if b.len() == 0 {
        assert(s.last() == '/');
    } else {
        assert(s.last() == b.last());
        assert(s.drop_last() =~= a + seq!['/'] + b.drop_last());
        lemma_rfind_after_slash(a, b.drop_last());
    }
}

/// Going into a subdirectory and back up again returns to the directory
/// one started from, and names the subdirectory so the cursor can land on
/// it: for an absolute directory path without a trailing `/` (but the
/// root) and a name that holds no `/`.
pub proof fn law_enter_then_up(dir: Seq<char>, name: Seq<char>)
    requires
        dir.len() > 0,
        dir[0] == '/',
        dir.len() > 1 ==> dir.last() != '/',
        name.len() > 0,
        forall|k: int| 0 <= k < name.len() ==> name[k] != '/',
    ensures
        dir_parent(join_path(dir, name)) == Some((dir, name)),
{
    let p = join_path(dir, name);
    assert(name.last() != '/');
    if dir.len() == 1 {
        assert(dir =~= seq!['/']);
        assert(p =~= seq![] + seq!['/'] + name);
        lemma_rfind_after_slash(seq![], name);
        assert(p.len() > 1 && p.last() != '/');
        assert(strip_trailing_slashes(p) == p);
        assert(p.take(0) =~= seq![]);
        assert(p.skip(1) =~= name);
        assert(p != seq!['/']);
    } else {
        assert(p =~= dir + seq!['/'] + name);
        lemma_rfind_after_slash(dir, name);
        assert(strip_trailing_slashes(p) == p);
        assert(p.take(dir.len() as int) =~= dir);
        assert(strip_trailing_slashes(dir) == dir);
        assert(p.skip(dir.len() as int + 1) =~= name);
        assert(p.len() > 1);
    }
}

/// The position of the first entry named `name`.
pub open spec fn position_of(es: Seq<FileEntry>, name: Seq<char>) -> Option<int> {
    if exists|i: int| 0 <= i < es.len() && #[trigger] es[i].name@ == name {
        Some(choose|i: int| 0 <= i < es.len() && es[i].name@ == name && (forall|j: int| 0 <= j < i ==> #[trigger] es[j].name@ != name))
    } else {
        None
    }
}

fn find_entry(es: &Vec<FileEntry>, name: &str) -> (r: Option<usize>)
    ensures
        match r {
            Some(i) => i < es@.len() && es@[i as int].name@ == name@ && (forall|j: int| 0 <= j < i ==> #[trigger] es@[j].name@ != name@),
            None => forall|j: int| 0 <= j < es@.len() ==> #[trigger] es@[j].name@ != name@,
        },
{
    let nc = chars_of(name);
    let mut i: usize = 0;
    while i < es.len()
        invariant
            i <= es@.len(),
            nc@ == name@,
            forall|j: int| 0 <= j < i ==> #[trigger] es@[j].name@ != name@,
        decreases es.len() - i,
    {
        if chars_eq_str(&nc, es[i].name.as_str()) {
            return Some(i);
        }
        i += 1;
    }
    None
}

proof fn lemma_position_of(es: Seq<FileEntry>, name: Seq<char>, i: int)
    requires
        0 <= i < es.len(),
        es[i].name@ == name,
        forall|j: int| 0 <= j < i ==> #[trigger] es[j].name@ != name,
    ensures
        position_of(es, name) == Some(i),
{
    assert(exists|k: int| 0 <= k < es.len() && #[trigger] es[k].name@ == name);
    let k = choose|k: int|
        0 <= k < es.len() && es[k].name@ == name && (forall|j: int| 0 <= j < k ==> #[trigger] es[j].name@ != name);
    assert(0 <= k < es.len() && es[k].name@ == name && (forall|j: int| 0 <= j < k ==> #[trigger] es[j].name@ != name)) by {
        assert(0 <= i < es.len() && es[i].name@ == name && (forall|j: int| 0 <= j < i ==> #[trigger] es[j].name@ != name));
    }
    if k < i {
        assert(es[k].name@ != name);
    }
    if i < k {
        assert(es[i].name@ != name);
    }
}

impl App {
    /// Where entering `name` leads: for `..` the parent directory, with the
    /// name of the directory left behind (the cursor goes back to it), and
    /// nothing at the root; else the entry's path below the current
    /// directory (the caller enters it only when it is a directory).
    pub fn enter_target(&self, name: &str) -> (r: Option<(String, Option<String>)>)
        ensures
            name@ == ".."@ ==> match dir_parent(self.current_dir@) {
                None => r is None,
                Some((p, n)) => r matches Some((d, Some(o))) && d@ == p && o@ == n,
            },
            name@ != ".."@ ==> (r matches Some((d, None)) && d@ == join_path(self.current_dir@, name@)),
    {
        if chars_eq_str(&chars_of(name), "..") {
            match parent_and_name(self.current_dir.as_str()) {
                None => None,
                Some((p, n)) => Some((p, Some(n))),
            }
        } else {
            Some((join(self.current_dir.as_str(), name), None))
        }
    }

    /// Shows directory `dir` with the listing `raw` (see
    /// [`App::load_entries`]; `..` heads it unless `dir` is the root). The
    /// cursor goes to the first entry named `came_from` when there is one
    /// (going back up), stays where it was when there is none, and goes to
    /// the top when nothing is named (entering a directory).
    pub fn show_dir(&mut self, dir: String, raw: Vec<FileEntry>, parent_mode: u32, came_from: Option<String>)
        ensures
            final(self).current_dir@ == dir@,
            is_listing_of(final(self).entries@, raw@, dir_parent(dir@) is Some, parent_mode, old(self).show_hidden,
                old(self).sort_mode, old(self).sort_asc),
            final(self).tagged@.len() == final(self).entries@.len(),
            final(self).search is None,
            final(self).sort_mode == old(self).sort_mode,
            final(self).sort_asc == old(self).sort_asc,
            final(self).show_hidden == old(self).show_hidden,
            match came_from {
                None => final(self).cursor == 0,
                Some(n) => match position_of(final(self).entries@, n@) {
                    Some(i) => final(self).cursor == i,
                    None => final(self).cursor == old(self).cursor,
                },
            },
    {
        let has_parent = parent_and_name(dir.as_str()).is_some();
        self.current_dir = dir;
        if came_from.is_none() {
            self.cursor = 0;
        }
        self.load_entries(raw, has_parent, parent_mode);
        match came_from {
            None => {},
            Some(n) => {
                match find_entry(&self.entries, n.as_str()) {
                    Some(i) => {
                        proof {
                            lemma_position_of(self.entries@, n@, i as int);
                        }
                        self.cursor = i;
                    },
                    None => {
                        assert(!(exists|i: int| 0 <= i < self.entries@.len() && #[trigger] self.entries@[i].name@ == n@));
                    },
                }
            },
        }
    }
}

} // verus!
