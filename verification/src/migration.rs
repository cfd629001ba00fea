//! Which migration scripts a run applies. A script is named
//! `<version>/<file>`; those whose version is above the stored one and whose
//! file is `up.sql` run, in the order given.
use vstd::prelude::*;
use vstd::utf8::valid_utf8;

use crate::text::{parse_i64, parse_i64_spec, push_char};

verus! {

/// A migration script: its path (such as `3/up.sql`) and its bytes.
#[derive(Debug, Clone, PartialEq, Eq)]
pub struct MigrationFile {
    pub name: String,
    pub data: Vec<u8>,
}

pub struct MigrationFileView {
    pub name: Seq<char>,
    pub data: Seq<u8>,
}

impl View for MigrationFile {
    type V = MigrationFileView;

    open spec fn view(&self) -> MigrationFileView {
        MigrationFileView { name: self.name@, data: self.data@ }
    }
}

/// Why a run of migrations stopped.
#[derive(Debug, Clone, Copy, PartialEq, Eq)]
pub enum MigrationError {
    /// The version stored in `_migrations` is not a number.
    InvalidStoredVersion,
    /// The part before the first `/` of the script at this index is not a number.
    InvalidFileVersion(usize),
    /// The script at this index, newer than the stored version, has no `/`.
    MissingFileName(usize),
    /// The script at this index, to be run, is not UTF-8 text.
    InvalidUtf8(usize),
}

/// The index of the first `/` at or after `from`, or the length if none.
pub open spec fn slash_pos(s: Seq<char>, from: int) -> int
    decreases s.len() - from,
{
    if from >= s.len() {
        s.len() as int
    } else if s[from] == '/' {
        from
    } else {
        slash_pos(s, from + 1)
    }
}

/// The text before the first `/` (all of it when there is none).
pub open spec fn first_segment(s: Seq<char>) -> Seq<char> {
    s.subrange(0, slash_pos(s, 0))
}

/// The text between the first `/` and the next one (or the end); none without a `/`.
pub open spec fn second_segment(s: Seq<char>) -> Option<Seq<char>> {
    let j = slash_pos(s, 0);
    if j >= s.len() {
        None
    } else {
        Some(s.subrange(j + 1, slash_pos(s, j + 1)))
    }
}

/// What a run decides for the script at `index`: run it, skip it, or stop.
pub open spec fn migration_decision(current: i64, f: MigrationFileView, index: usize) -> Result<bool, MigrationError> {
    match parse_i64_spec(first_segment(f.name)) {
        None => Err(MigrationError::InvalidFileVersion(index)),
        Some(n) => if current < n {
            match second_segment(f.name) {
                None => Err(MigrationError::MissingFileName(index)),
                Some(file) => if file == "up.sql"@ {
                    if valid_utf8(f.data) {
                        Ok(true)
                    } else {
                        Err(MigrationError::InvalidUtf8(index))
                    }
                } else {
                    Ok(false)
                },
            }
        } else {
            Ok(false)
        },
    }
}

/// The indices of the first `k` scripts that a run applies, in order, and why
/// it stopped, if it did: it stops at the first script it cannot decide on.
pub open spec fn migration_plan(current: i64, files: Seq<MigrationFileView>, k: nat) -> (Seq<usize>, Option<MigrationError>)
    decreases k,
{
    if k == 0 {
        (Seq::empty(), None)
    } else {
        let (steps, err) = migration_plan(current, files, (k - 1) as nat);
        if err is Some {
            (steps, err)
        } else {
            match migration_decision(current, files[k - 1], (k - 1) as usize) {
                Err(e) => (steps, Some(e)),
                Ok(true) => (steps.push((k - 1) as usize), None),
                Ok(false) => (steps, None),
            }
        }
    }
}

pub open spec fn file_views(files: Seq<MigrationFile>) -> Seq<MigrationFileView> {
    files.map_values(|f: MigrationFile| f@)
}

fn find_slash(s: &str, from: usize) -> (r: usize)
    requires
        from <= s@.len(),
    ensures
        r == slash_pos(s@, from as int),
{
    let n = s.unicode_len();
    let mut i = from;
    while i < n
        invariant
            from <= i <= n,
            n == s@.len(),
            slash_pos(s@, from as int) == slash_pos(s@, i as int),
        decreases n - i,
    {
        if s.get_char(i) == '/' {
            return i;
        }
        i = i + 1;
    }
    i
}

/// The characters `from .. to` of `s`.
fn substring(s: &str, from: usize, to: usize) -> (r: String)
    requires
        from <= to <= s@.len(),
    ensures
        r@ == s@.subrange(from as int, to as int),
{
    let mut r = String::new();
    let mut i = from;
    while i < to
        invariant
            from <= i <= to,
            to <= s@.len(),
            r@ == s@.subrange(from as int, i as int),
        decreases to - i,
    {
        let c = s.get_char(i);
        push_char(&mut r, c);
        assert(r@ =~= s@.subrange(from as int, i + 1));
        i = i + 1;
    }
    r
}

proof fn lemma_slash_pos_bounds(s: Seq<char>, from: int)
    requires
        0 <= from <= s.len(),
    ensures
        from <= slash_pos(s, from) <= s.len(),
    decreases s.len() - from,
{
    if from < s.len() && s[from] != '/' {
        lemma_slash_pos_bounds(s, from + 1);
    }
}

/// The text before the first `/` of `s`.
pub fn first_segment_of(s: &str) -> (r: String)
    ensures
        r@ == first_segment(s@),
{
    let j = find_slash(s, 0);
    proof { lemma_slash_pos_bounds(s@, 0); }
    substring(s, 0, j)
}

/// The text between the first `/` of `s` and the next one (or the end).
pub fn second_segment_of(s: &str) -> (r: Option<String>)
    ensures
        match (r, second_segment(s@)) {
            (Some(a), Some(b)) => a@ == b,
            (None, None) => true,
            _ => false,
        },
{
    let j = find_slash(s, 0);
    proof { lemma_slash_pos_bounds(s@, 0); }
    if j >= s.unicode_len() {
        None
    } else {
        let k = find_slash(s, j + 1);
        proof { lemma_slash_pos_bounds(s@, j + 1); }
        Some(substring(s, j + 1, k))
    }
}

/// Whether `a` and `b` hold the same characters.
fn same_text(a: &str, b: &str) -> (r: bool)
    ensures
        r == (a@ == b@),
{
    let n = a.unicode_len();
    if n != b.unicode_len() {
        return false;
    }
    let mut i: usize = 0;
    while i < n
        invariant
            i <= n,
            n == a@.len(),
            n == b@.len(),
            forall|k: int| 0 <= k < i ==> a@[k] == b@[k],
        decreases n - i,
    {
        if a.get_char(i) != b.get_char(i) {
            return false;
        }
        i = i + 1;
    }
    assert(a@ =~= b@);
    true
}

/// Whether `bytes` are UTF-8 text.
fn is_utf8(bytes: &Vec<u8>) -> (r: bool)
    ensures
        r == valid_utf8(bytes@),
{
    crate::sql_value::string_from_utf8(bytes.clone()).is_some()
}

/// What a run decides for the script `f` at `index` when the stored version is `current`.
pub fn decide_migration(current: i64, f: &MigrationFile, index: usize) -> (r: Result<bool, MigrationError>)
    ensures
        r == migration_decision(current, f@, index),
{
    let first = first_segment_of(f.name.as_str());
    match parse_i64(first.as_str()) {
        None => Err(MigrationError::InvalidFileVersion(index)),
        Some(n) => {
            if current < n {
                match second_segment_of(f.name.as_str()) {
                    None => Err(MigrationError::MissingFileName(index)),
                    Some(file) => {
                        if same_text(file.as_str(), "up.sql") {
                            if is_utf8(&f.data) {
                                Ok(true)
                            } else {
                                Err(MigrationError::InvalidUtf8(index))
                            }
                        } else {
                            Ok(false)
                        }
                    },
                }
            } else {
                Ok(false)
            }
        },
    }
}

/// The scripts of `files` that a run applies when the stored version is
/// `current`, in order, and why the run stops, if it does.
pub fn plan_migrations(current: i64, files: &Vec<MigrationFile>) -> (r: (Vec<usize>, Option<MigrationError>))
    ensures
        (r.0@, r.1) == migration_plan(current, file_views(files@), files@.len()),
{
    let mut steps: Vec<usize> = Vec::new();
    let mut k: usize = 0;
    while k < files.len()
        invariant
            k <= files@.len(),
            migration_plan(current, file_views(files@), k as nat) == (steps@, None::<MigrationError>),
        decreases files.len() - k,
    {
        let ghost prev = steps@;
        match decide_migration(current, &files[k], k) {
            Err(e) => {
                proof { lemma_plan_stops(current, file_views(files@), (k + 1) as nat, files@.len()); }
                return (steps, Some(e));
            },
            Ok(true) => {
                steps.push(k);
            },
            Ok(false) => {},
        }
        k = k + 1;
    }
    (steps, None)
}

/// The script at `index` is one a run may apply: named `up.sql`, with a
/// version above `current`, holding UTF-8 text.
pub open spec fn applicable(current: i64, files: Seq<MigrationFileView>, index: int) -> bool {
    let f = files[index];
    &&& parse_i64_spec(first_segment(f.name)) matches Some(n) && current < n
    &&& second_segment(f.name) == Some("up.sql"@)
    &&& valid_utf8(f.data)
}

/// A run applies only scripts named `up.sql` whose version is above the stored
/// one and whose text is UTF-8, each at most once, in the order given.
pub proof fn lemma_plan_runs_only_newer_up_scripts(current: i64, files: Seq<MigrationFileView>, k: nat)
    requires
        k <= files.len(),
        files.len() <= usize::MAX,
    ensures
        forall|i: int, j: int| 0 <= i < j < migration_plan(current, files, k).0.len()
            ==> migration_plan(current, files, k).0[i] < migration_plan(current, files, k).0[j],
        forall|i: int| 0 <= i < migration_plan(current, files, k).0.len() ==> {
            &&& migration_plan(current, files, k).0[i] < k
            &&& applicable(current, files, #[trigger] migration_plan(current, files, k).0[i] as int)
        },
    decreases k,
{
    if k > 0 {
        lemma_plan_runs_only_newer_up_scripts(current, files, (k - 1) as nat);
        let prev = migration_plan(current, files, (k - 1) as nat).0;
        let steps = migration_plan(current, files, k).0;
        if migration_plan(current, files, (k - 1) as nat).1 is None
            && migration_decision(current, files[k - 1], (k - 1) as usize) == Ok::<bool, MigrationError>(true) {
            assert(steps == prev.push((k - 1) as usize));
            assert(applicable(current, files, k - 1));
            assert forall|i: int| 0 <= i < steps.len() implies {
                &&& steps[i] < k
                &&& applicable(current, files, #[trigger] steps[i] as int)
            } by {
                if i < prev.len() {
                    assert(steps[i] == prev[i]);
                    assert(applicable(current, files, prev[i] as int));
                }
            }
            assert forall|i: int, j: int| 0 <= i < j < steps.len() implies steps[i] < steps[j] by {
                assert(steps[i] == prev[i]);
                assert(applicable(current, files, prev[i] as int));
                if j < prev.len() {
                    assert(steps[j] == prev[j]);
                }
            }
        } else {
            assert(steps == prev);
        }
    }
}

/// Once every script's version is at or below the stored one, a run applies
/// nothing and stops for no script.
pub proof fn lemma_plan_empty_when_up_to_date(current: i64, files: Seq<MigrationFileView>, k: nat)
    requires
        k <= files.len(),
        forall|i: int| 0 <= i < k ==> (parse_i64_spec(first_segment(#[trigger] files[i].name)) matches Some(n) && n <= current),
    ensures
        migration_plan(current, files, k) == (Seq::<usize>::empty(), None::<MigrationError>),
    decreases k,
{
    if k > 0 {
        lemma_plan_empty_when_up_to_date(current, files, (k - 1) as nat);
        assert(parse_i64_spec(first_segment(files[k - 1].name)) is Some);
    }
}

/// Once a run stops, later scripts change nothing.
proof fn lemma_plan_stops(current: i64, files: Seq<MigrationFileView>, j: nat, k: nat)
    requires
        j <= k,
        migration_plan(current, files, j).1 is Some,
    ensures
        migration_plan(current, files, k) == migration_plan(current, files, j),
    decreases k - j,
{
    if j < k {
        lemma_plan_stops(current, files, j, (k - 1) as nat);
    }
}

} // verus!
