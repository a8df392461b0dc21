//! The decisions of the file operations: name and permission checks,
//! destination paths, what each target becomes, and how a copy or move
//! goes on at a name that already exists at the destination.
use vstd::prelude::*;
use crate::app::{is_dotdot, name_is_dotdot, App, ConflictChoice, OverwritePrompt};
use crate::fs_utils::{path_starts_with, path_starts_with_exec, string_views};
use crate::num::{parse_radix, parse_unsigned};
use crate::text::{chars_of, string_of, trim, trim_chars};
use crate::tree::join_path;

verus! {

/// Why a file operation is refused before it touches anything.
#[derive(PartialEq, Eq, Debug)]
pub enum OpError {
    /// The new name is empty or blank.
    EmptyName,
    /// The permission text is empty or blank.
    EmptyPerm,
    /// The permission text is not an octal number (the trimmed text).
    InvalidOctal(String),
    /// There is no file to copy.
    NoSource,
    /// The name already exists at the destination.
    Exists(String),
    /// A directory would be copied into itself (its name).
    IntoItself(String),
}

fn push_str(out: &mut Vec<char>, s: &str)
    ensures
        final(out)@ == old(out)@ + s@,
{
    let cs = chars_of(s);
    let ghost o = out@;
    let mut k: usize = 0;
    while k < cs.len()
        invariant
            k <= cs.len(),
            out@ == o + cs@.take(k as int),
        decreases cs.len() - k,
    {
        out.push(cs[k]);
        k += 1;
        assert(out@ =~= o + cs@.take(k as int));
    }
    assert(cs@.take(cs.len() as int) =~= cs@);
}

/// The message shown for an operation error.
pub open spec fn op_error_text(e: OpError) -> Seq<char> {
    match e {
        OpError::EmptyName => "名前が空です"@,
        OpError::EmptyPerm => "権限が空です"@,
        OpError::InvalidOctal(s) => "無効なオクタル値: "@ + s@,
        OpError::NoSource => "複写元ファイルが指定されていません"@,
        OpError::Exists(n) => "\""@ + n@ + "\" は既に存在します"@,
        OpError::IntoItself(n) => "コピー先がコピー元の配下です: "@ + n@,
    }
}

impl OpError {
    /// The message shown for this error.
    pub fn message(&self) -> (r: String)
        ensures
            r@ == op_error_text(*self),
    {
        let mut v: Vec<char> = Vec::new();
        match self {
            OpError::EmptyName => push_str(&mut v, "名前が空です"),
            OpError::EmptyPerm => push_str(&mut v, "権限が空です"),
            OpError::InvalidOctal(s) => {
                push_str(&mut v, "無効なオクタル値: ");
                push_str(&mut v, s.as_str());
            },
            OpError::NoSource => push_str(&mut v, "複写元ファイルが指定されていません"),
            OpError::Exists(n) => {
                push_str(&mut v, "\"");
                push_str(&mut v, n.as_str());
                push_str(&mut v, "\" は既に存在します");
            },
            OpError::IntoItself(n) => {
                push_str(&mut v, "コピー先がコピー元の配下です: ");
                push_str(&mut v, n.as_str());
            },
        }
        assert(v@ =~= op_error_text(*self));
        string_of(&v)
    }
}

// ── Names and paths ──────────────────────────────────────────────────────

/// A name typed in a dialog, trimmed; an error when nothing is left.
pub fn checked_name(input: &str) -> (r: Result<String, OpError>)
    ensures
        trim(input@).len() == 0 ==> r == Err::<String, OpError>(OpError::EmptyName),
        trim(input@).len() > 0 ==> (r matches Ok(n) && n@ == trim(input@)),
{
    let t = trim_chars(&chars_of(input));
    if t.len() == 0 {
        Err(OpError::EmptyName)
    } else {
        Ok(string_of(&t))
    }
}

/// Whether a path is absolute (starts with `/`).
pub open spec fn is_absolute(p: Seq<char>) -> bool {
    p.len() > 0 && p[0] == '/'
}

/// The destination a dialog names: an absolute path as it is, else a path
/// below `dir` (`PathBuf::join`).
pub open spec fn dest_path(dir: Seq<char>, s: Seq<char>) -> Seq<char> {
    if is_absolute(s) {
        s
    } else {
        join_path(dir, s)
    }
}

/// Executable form of [`join_path`].
pub fn join(dir: &str, name: &str) -> (r: String)
    ensures
        r@ == join_path(dir@, name@),
{
    let mut out = chars_of(dir);
    if !(out.len() > 0 && out[out.len() - 1] == '/') {
        out.push('/');
    }
    push_str(&mut out, name);
    assert(out@ =~= join_path(dir@, name@));
    string_of(&out)
}

impl App {
    /// The destination path typed in a dialog, relative to the current
    /// directory unless absolute.
    pub fn resolve_dest(&self, s: &str) -> (r: String)
        ensures
            r@ == dest_path(self.current_dir@, s@),
    {
        let cs = chars_of(s);
        if cs.len() > 0 && cs[0] == '/' {
            string_of(&cs)
        } else {
            join(self.current_dir.as_str(), s)
        }
    }
}

// ── What each operation does ─────────────────────────────────────────────

/// The targets other than `..`, in order.
pub open spec fn without_dotdot(ts: Seq<Seq<char>>) -> Seq<Seq<char>>
    decreases ts.len(),
{
    if ts.len() == 0 {
        seq![]
    } else if is_dotdot(ts.last()) {
        without_dotdot(ts.drop_last())
    } else {
        without_dotdot(ts.drop_last()).push(ts.last())
    }
}

/// The names a delete or a permission change acts on: the targets, `..`
/// left out.
pub fn exec_delete(targets: &Vec<String>) -> (r: Vec<String>)
    ensures
        string_views(r@) == without_dotdot(string_views(targets@)),
{
    let mut out: Vec<String> = Vec::new();
    let mut i: usize = 0;
    while i < targets.len()
        invariant
            i <= targets.len(),
            string_views(out@) == without_dotdot(string_views(targets@).take(i as int)),
        decreases targets.len() - i,
    {
        let ghost before = string_views(out@);
        assert(string_views(targets@).take(i + 1).drop_last() =~= string_views(targets@).take(i as int));
        if !name_is_dotdot(&targets[i]) {
            out.push(targets[i].clone());
            assert(string_views(out@) =~= before.push(targets@[i as int]@));
        }
        i += 1;
    }
    assert(string_views(targets@).take(targets.len() as int) =~= string_views(targets@));
    out
}

/// A rename: the new name is trimmed and must not be blank; the first
/// target (unless it is `..`) is renamed to it. `Ok(None)` when there is
/// nothing to rename.
pub fn exec_rename(new_name: &str, targets: &Vec<String>) -> (r: Result<Option<(String, String)>, OpError>)
    ensures
        trim(new_name@).len() == 0 ==> r == Err::<Option<(String, String)>, OpError>(OpError::EmptyName),
        trim(new_name@).len() > 0 ==> match r {
            Ok(Some((from, to))) => targets@.len() > 0 && !is_dotdot(targets@[0]@) && from@ == targets@[0]@
                && to@ == trim(new_name@),
            Ok(None) => targets@.len() == 0 || is_dotdot(targets@[0]@),
            Err(_) => false,
        },
{
    let n = checked_name(new_name)?;
    if targets.len() > 0 && !name_is_dotdot(&targets[0]) {
        Ok(Some((targets[0].clone(), n)))
    } else {
        Ok(None)
    }
}

/// A new directory: its trimmed name, which must not be blank.
pub fn exec_mkdir(name: &str) -> (r: Result<String, OpError>)
    ensures
        trim(name@).len() == 0 ==> r == Err::<String, OpError>(OpError::EmptyName),
        trim(name@).len() > 0 ==> (r matches Ok(n) && n@ == trim(name@)),
{
    checked_name(name)
}

/// A permission change: the trimmed text must be an octal number that fits
/// in 32 bits (`u32::from_str_radix(s, 8)`); the mode and the targets other
/// than `..`.
pub fn exec_attr(perm_str: &str, targets: &Vec<String>) -> (r: Result<(u32, Vec<String>), OpError>)
    ensures
        trim(perm_str@).len() == 0 ==> r == Err::<(u32, Vec<String>), OpError>(OpError::EmptyPerm),
        trim(perm_str@).len() > 0 ==> match parse_unsigned(trim(perm_str@), 8, u32::MAX as nat) {
            Some(m) => (r matches Ok((mode, ts)) && mode == m && string_views(ts@) == without_dotdot(
                string_views(targets@),
            )),
            None => (r matches Err(OpError::InvalidOctal(s)) && s@ == trim(perm_str@)),
        },
{
    let t = trim_chars(&chars_of(perm_str));
    if t.len() == 0 {
        return Err(OpError::EmptyPerm);
    }
    match parse_radix(&t, 8, 0xffff_ffff) {
        Some(m) => Ok((m as u32, exec_delete(targets))),
        None => Err(OpError::InvalidOctal(string_of(&t))),
    }
}

/// A copy under a new name in the same directory: the trimmed new name
/// (not blank) and the first target as the source.
pub fn exec_copy_newname(new_name: &str, targets: &Vec<String>) -> (r: Result<(String, String), OpError>)
    ensures
        trim(new_name@).len() == 0 ==> r == Err::<(String, String), OpError>(OpError::EmptyName),
        trim(new_name@).len() > 0 && targets@.len() == 0 ==> r == Err::<(String, String), OpError>(OpError::NoSource),
        trim(new_name@).len() > 0 && targets@.len() > 0 ==> (r matches Ok((src, n)) && src@ == targets@[0]@
            && n@ == trim(new_name@)),
{
    let n = checked_name(new_name)?;
    if targets.len() == 0 {
        return Err(OpError::NoSource);
    }
    Ok((targets[0].clone(), n))
}

/// The first of the directory targets `dirs` (name, canonical path) that
/// the canonical destination `dest` lies in, if any.
pub open spec fn first_enclosing(dest: Seq<char>, dirs: Seq<(String, String)>) -> Option<int>
    decreases dirs.len(),
{
    if dirs.len() == 0 {
        None
    } else {
        match first_enclosing(dest, dirs.drop_last()) {
            Some(i) => Some(i),
            None => if path_starts_with(dest, dirs.last().1@) {
                Some(dirs.len() - 1)
            } else {
                None
            },
        }
    }
}

/// Refuses a copy into a directory that is being copied: `Err(IntoItself)`
/// with the first directory target (name, canonical path) whose path the
/// canonical destination starts with.
pub fn check_copy_dest(dest: &str, dirs: &Vec<(String, String)>) -> (r: Result<(), OpError>)
    ensures
        match first_enclosing(dest@, dirs@) {
            None => r is Ok,
            Some(i) => 0 <= i < dirs@.len() && (r matches Err(OpError::IntoItself(n)) && n@ == dirs@[i].0@),
        },
{
    let d = chars_of(dest);
    let mut i: usize = 0;
    while i < dirs.len()
        invariant
            i <= dirs@.len(),
            d@ == dest@,
            first_enclosing(dest@, dirs@.take(i as int)) is None,
        decreases dirs.len() - i,
    {
        assert(dirs@.take(i + 1).drop_last() =~= dirs@.take(i as int));
        if path_starts_with_exec(&d, &chars_of(dirs[i].1.as_str())) {
            proof {
                lemma_first_enclosing_prefix(dest@, dirs@, i as int + 1);
            }
            return Err(OpError::IntoItself(dirs[i].0.clone()));
        }
        i += 1;
    }
    assert(dirs@.take(dirs.len() as int) =~= dirs@);
    Ok(())
}

proof fn lemma_first_enclosing_prefix(dest: Seq<char>, dirs: Seq<(String, String)>, k: int)
    requires
        0 < k <= dirs.len(),
        first_enclosing(dest, dirs.take(k)) is Some,
    ensures
        first_enclosing(dest, dirs) == first_enclosing(dest, dirs.take(k)),
    decreases dirs.len() - k,
{
    if k < dirs.len() {
        assert(dirs.take(k + 1).drop_last() =~= dirs.take(k));
        lemma_first_enclosing_prefix(dest, dirs, k + 1);
    } else {
        assert(dirs.take(k) =~= dirs);
    }
}

// ── Conflicts ────────────────────────────────────────────────────────────

/// What happens to one file of a copy or move.
#[derive(Clone, Copy, PartialEq, Eq, Debug, Structural)]
pub enum CopyStep {
    /// Copy or move it.
    Transfer,
    /// Leave it.
    Skip,
    /// Stop and ask what to do with it.
    Ask,
}

/// The step for a file: a name free at the destination is transferred; an
/// existing one is asked about, unless a choice was made for all (then
/// overwrite, skip, or transfer only when the source is newer).
pub open spec fn step_for(exists: bool, src_newer: bool, batch: Option<ConflictChoice>) -> CopyStep {
    if !exists {
        CopyStep::Transfer
    } else {
        match batch {
            None => CopyStep::Ask,
            Some(ConflictChoice::Overwrite) => CopyStep::Transfer,
            Some(ConflictChoice::IfNewer) => if src_newer {
                CopyStep::Transfer
            } else {
                CopyStep::Skip
            },
            Some(ConflictChoice::Skip) => CopyStep::Skip,
        }
    }
}

/// Executable form of [`step_for`].
pub fn copy_step(exists: bool, src_newer: bool, batch: Option<ConflictChoice>) -> (r: CopyStep)
    ensures
        r == step_for(exists, src_newer, batch),
{
    if !exists {
        CopyStep::Transfer
    } else {
        match batch {
            None => CopyStep::Ask,
            Some(ConflictChoice::Overwrite) => CopyStep::Transfer,
            Some(ConflictChoice::IfNewer) => if src_newer {
                CopyStep::Transfer
            } else {
                CopyStep::Skip
            },
            Some(ConflictChoice::Skip) => CopyStep::Skip,
        }
    }
}

/// The first of the first `n` files that has to be asked about.
pub open spec fn first_ask(exists: Seq<bool>, newer: Seq<bool>, batch: Option<ConflictChoice>, n: int) -> Option<int>
    decreases n,
{
    if n <= 0 {
        None
    } else {
        match first_ask(exists, newer, batch, n - 1) {
            Some(i) => Some(i),
            None => if step_for(exists[n - 1], newer[n - 1], batch) == CopyStep::Ask {
                Some(n - 1)
            } else {
                None
            },
        }
    }
}

/// The positions among the first `n` files that are transferred, in order.
pub open spec fn transfers_upto(exists: Seq<bool>, newer: Seq<bool>, batch: Option<ConflictChoice>, n: int) -> Seq<usize>
    decreases n,
{
    if n <= 0 {
        seq![]
    } else if step_for(exists[n - 1], newer[n - 1], batch) == CopyStep::Transfer {
        transfers_upto(exists, newer, batch, n - 1).push((n - 1) as usize)
    } else {
        transfers_upto(exists, newer, batch, n - 1)
    }
}

/// The run of a copy or move over files whose destination names exist
/// (`exists`) and whose sources are newer than those (`newer`), in order:
/// the files transferred up to the first one that has to be asked about,
/// and that one (then the rest waits for the answer), or all of them.
pub fn copy_plan(exists: &Vec<bool>, newer: &Vec<bool>, batch: Option<ConflictChoice>) -> (r: (Vec<usize>, Option<usize>))
    requires
        exists.len() == newer.len(),
    ensures
        match first_ask(exists@, newer@, batch, exists@.len() as int) {
            Some(i) => r.1 == Some(i as usize) && r.0@ == transfers_upto(exists@, newer@, batch, i),
            None => r.1 is None && r.0@ == transfers_upto(exists@, newer@, batch, exists@.len() as int),
        },
{
    let mut out: Vec<usize> = Vec::new();
    let mut i: usize = 0;
    while i < exists.len()
        invariant
            i <= exists@.len(),
            exists@.len() == newer@.len(),
            first_ask(exists@, newer@, batch, i as int) is None,
            out@ == transfers_upto(exists@, newer@, batch, i as int),
        decreases exists.len() - i,
    {
        let st = copy_step(exists[i], newer[i], batch);
        match st {
            CopyStep::Ask => {
                proof {
                    lemma_first_ask_stays(exists@, newer@, batch, i as int + 1, exists@.len() as int);
                }
                return (out, Some(i));
            },
            CopyStep::Transfer => {
                out.push(i);
            },
            CopyStep::Skip => {},
        }
        i += 1;
    }
    (out, None)
}

proof fn lemma_first_ask_stays(exists: Seq<bool>, newer: Seq<bool>, batch: Option<ConflictChoice>, k: int, n: int)
    requires
        0 < k <= n,
        first_ask(exists, newer, batch, k) is Some,
    ensures
        first_ask(exists, newer, batch, n) == first_ask(exists, newer, batch, k),
    decreases n - k,
{
    if k < n {
        lemma_first_ask_stays(exists, newer, batch, k, n - 1);
    }
}

/// Whether the file in conflict is transferred for a choice.
pub open spec fn choice_transfers(choice: ConflictChoice, src_newer: bool) -> bool {
    match choice {
        ConflictChoice::IfNewer => src_newer,
        ConflictChoice::Overwrite => true,
        ConflictChoice::Skip => false,
    }
}

/// Executable form of [`choice_transfers`].
pub fn resolve_choice(choice: ConflictChoice, src_newer: bool) -> (r: bool)
    ensures
        r == choice_transfers(choice, src_newer),
{
    match choice {
        ConflictChoice::IfNewer => src_newer,
        ConflictChoice::Overwrite => true,
        ConflictChoice::Skip => false,
    }
}

/// The prompt for the conflict at `files[i]`: the remaining names follow
/// it, no choice for all yet, the highlight on "if newer".
pub fn conflict_prompt(dest: &str, files: &Vec<String>, i: usize, is_move: bool) -> (r: OverwritePrompt)
    requires
        i < files.len(),
    ensures
        r.dest@ == dest@,
        r.conflict@ == files@[i as int]@,
        string_views(r.todo@) == string_views(files@).skip(i + 1),
        r.is_move == is_move,
        r.batch is None,
        r.cursor == 0,
{
    let mut todo: Vec<String> = Vec::new();
    let mut k: usize = i + 1;
    while k < files.len()
        invariant
            i < k <= files.len(),
            string_views(todo@) == string_views(files@).subrange(i + 1, k as int),
        decreases files.len() - k,
    {
        let ghost before = string_views(todo@);
        todo.push(files[k].clone());
        assert(string_views(todo@) =~= before.push(files@[k as int]@));
        k += 1;
        assert(string_views(todo@) =~= string_views(files@).subrange(i + 1, k as int));
    }
    assert(string_views(todo@) =~= string_views(files@).skip(i + 1));
    OverwritePrompt {
        dest: string_of(&chars_of(dest)),
        conflict: files[i].clone(),
        todo,
        is_move,
        batch: None,
        cursor: 0,
    }
}


// ── Laws ─────────────────────────────────────────────────────────────────

/// Once a choice is made for all remaining conflicts, no file is asked
/// about again, and a file whose name is free is always transferred.
pub proof fn law_batch_never_asks(exists: bool, src_newer: bool, batch: ConflictChoice)
    ensures
        step_for(exists, src_newer, Some(batch)) != CopyStep::Ask,
        step_for(false, src_newer, None) == CopyStep::Transfer,
{
}

} // verus!
