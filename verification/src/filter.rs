//! The filter that decides which tables take part in a task.

use vstd::prelude::*;
use crate::text::to_chars;

verus! {

/// Whether `c` stands for any run of characters in a pattern.
pub open spec fn is_any_run(c: char) -> bool {
    c == '*' || c == '%'
}

/// Whether `c` stands for any single character in a pattern.
pub open spec fn is_any_one(c: char) -> bool {
    c == '?'
}

/// Whether `pattern[i..]` matches `name[j..]`: `*` and `%` match any run of
/// characters, `?` matches any one character, and every other character
/// matches itself.
pub open spec fn matches_from(pattern: Seq<char>, i: int, name: Seq<char>, j: int) -> bool
    decreases pattern.len() - i, name.len() - j,
{
    if i < 0 || j < 0 || i > pattern.len() || j > name.len() {
        false
    } else if i == pattern.len() {
        j == name.len()
    } else if is_any_run(pattern[i]) {
        matches_from(pattern, i + 1, name, j) || (j < name.len() && matches_from(pattern, i, name, j + 1))
    } else {
        j < name.len() && (is_any_one(pattern[i]) || pattern[i] == name[j]) && matches_from(
            pattern,
            i + 1,
            name,
            j + 1,
        )
    }
}

/// Whether `pattern` matches the whole of `name`.
pub open spec fn wildcard_match(pattern: Seq<char>, name: Seq<char>) -> bool {
    matches_from(pattern, 0, name, 0)
}

fn match_chars_from(pattern: &Vec<char>, i: usize, name: &Vec<char>, j: usize) -> (r: bool)
    requires
        i <= pattern@.len(),
        j <= name@.len(),
    ensures
        r == matches_from(pattern@, i as int, name@, j as int),
    decreases pattern@.len() - i, name@.len() - j,
{
    if i == pattern.len() {
        j == name.len()
    } else if pattern[i] == '*' || pattern[i] == '%' {
        if match_chars_from(pattern, i + 1, name, j) {
            true
        } else {
            j < name.len() && match_chars_from(pattern, i, name, j + 1)
        }
    } else {
        j < name.len() && (pattern[i] == '?' || pattern[i] == name[j]) && match_chars_from(
            pattern,
            i + 1,
            name,
            j + 1,
        )
    }
}

/// Whether `pattern` matches the whole of `name`.
pub fn pattern_matches(pattern: &String, name: &String) -> (r: bool)
    ensures
        r == wildcard_match(pattern@, name@),
{
    let p = to_chars(pattern);
    let n = to_chars(name);
    match_chars_from(&p, 0, &n, 0)
}

/// A pattern over `(db, tb)`.
#[derive(Clone, Debug, PartialEq, Eq)]
pub struct TbPattern {
    pub db: String,
    pub tb: String,
}

/// The include and exclude rules of a task.
#[derive(Clone, Debug, PartialEq, Eq)]
pub struct RdbFilter {
    pub do_dbs: Vec<String>,
    pub ignore_dbs: Vec<String>,
    pub do_tbs: Vec<TbPattern>,
    pub ignore_tbs: Vec<TbPattern>,
}

/// Whether some pattern of `patterns` matches `db`.
pub open spec fn any_db_matches(patterns: Seq<String>, db: Seq<char>) -> bool {
    exists|i: int| 0 <= i < patterns.len() && wildcard_match((#[trigger] patterns[i])@, db)
}

/// Whether some pattern of `patterns` matches `(db, tb)`.
pub open spec fn any_tb_matches(patterns: Seq<TbPattern>, db: Seq<char>, tb: Seq<char>) -> bool {
    exists|i: int|
        0 <= i < patterns.len() && wildcard_match((#[trigger] patterns[i]).db@, db) && wildcard_match(
            patterns[i].tb@,
            tb,
        )
}

fn db_matches_any(patterns: &Vec<String>, db: &String) -> (r: bool)
    ensures
        r == any_db_matches(patterns@, db@),
{
    let mut i: usize = 0;
    while i < patterns.len()
        invariant
            i <= patterns.len(),
            forall|j: int| 0 <= j < i ==> !wildcard_match((#[trigger] patterns@[j])@, db@),
        decreases patterns.len() - i,
    {
        if pattern_matches(&patterns[i], db) {
            return true;
        }
        i = i + 1;
    }
    false
}

fn tb_matches_any(patterns: &Vec<TbPattern>, db: &String, tb: &String) -> (r: bool)
    ensures
        r == any_tb_matches(patterns@, db@, tb@),
{
    let mut i: usize = 0;
    while i < patterns.len()
        invariant
            i <= patterns.len(),
            forall|j: int|
                0 <= j < i ==> !(wildcard_match((#[trigger] patterns@[j]).db@, db@) && wildcard_match(
                    patterns@[j].tb@,
                    tb@,
                )),
        decreases patterns.len() - i,
    {
        if pattern_matches(&patterns[i].db, db) && pattern_matches(&patterns[i].tb, tb) {
            return true;
        }
        i = i + 1;
    }
    false
}

impl RdbFilter {
    /// Whether table `tb` of `db` is left out of the task: it is when an
    /// exclude rule names it or its database, or when no include rule does.
    pub open spec fn filtered(&self, db: Seq<char>, tb: Seq<char>) -> bool {
        ||| any_tb_matches(self.ignore_tbs@, db, tb)
        ||| any_db_matches(self.ignore_dbs@, db)
        ||| !(any_tb_matches(self.do_tbs@, db, tb) || any_db_matches(self.do_dbs@, db))
    }

    /// A filter of the given rules.
    pub fn new(do_dbs: Vec<String>, ignore_dbs: Vec<String>, do_tbs: Vec<TbPattern>, ignore_tbs: Vec<TbPattern>) -> (r:
        RdbFilter)
        ensures
            r.do_dbs == do_dbs,
            r.ignore_dbs == ignore_dbs,
            r.do_tbs == do_tbs,
            r.ignore_tbs == ignore_tbs,
    {
        RdbFilter { do_dbs, ignore_dbs, do_tbs, ignore_tbs }
    }

    /// Whether table `tb` of `db` is left out of the task.
    pub fn filter_tb(&self, db: &String, tb: &String) -> (r: bool)
        ensures
            r == self.filtered(db@, tb@),
    {
        if tb_matches_any(&self.ignore_tbs, db, tb) {
            return true;
        }
        if db_matches_any(&self.ignore_dbs, db) {
            return true;
        }
        if tb_matches_any(&self.do_tbs, db, tb) {
            return false;
        }
        !db_matches_any(&self.do_dbs, db)
    }
}

} // verus!
