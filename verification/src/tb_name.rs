//! Full table names as they are written in lists of tables: `db.tb`, where
//! either part may be enclosed in the engine's escape character.

use vstd::prelude::*;
use crate::compare::db_tbs_view;
use crate::config::DbType;
use crate::text::{push_char, to_chars};

verus! {

/// The character that encloses an escaped name: the double quote for
/// PostgreSQL, the backtick for the engines that speak MySQL.
pub open spec fn escape_char(db_type: DbType) -> char {
    match db_type {
        DbType::Pg => '"',
        _ => '`',
    }
}

/// The index of the first dot at or after `from` that stands outside
/// escaped text, or the length of `s` where there is none. `inside` says
/// whether `from` lies within escaped text.
pub open spec fn outside_dot(s: Seq<char>, from: int, esc: char, inside: bool) -> int
    decreases s.len() - from,
{
    if from < 0 || from >= s.len() {
        s.len() as int
    } else if s[from] == esc {
        outside_dot(s, from + 1, esc, !inside)
    } else if s[from] == '.' && !inside {
        from
    } else {
        outside_dot(s, from + 1, esc, inside)
    }
}

/// A name without the escape characters that enclose it, if any do.
pub open spec fn unescaped(name: Seq<char>, esc: char) -> Seq<char> {
    if name.len() >= 2 && name[0] == esc && name.last() == esc {
        name.subrange(1, name.len() - 1)
    } else {
        name
    }
}

/// The `(db, tb)` that a full table name stands for: the text in front of
/// the first dot outside escaped text and the text behind it up to the next
/// such dot, each without its enclosing escape characters. A name without
/// such a dot is a table name with an empty database.
pub open spec fn full_tb_name(s: Seq<char>, esc: char) -> (Seq<char>, Seq<char>) {
    let dot = outside_dot(s, 0, esc, false);
    if dot < s.len() {
        let end = outside_dot(s, dot + 1, esc, false);
        (unescaped(s.subrange(0, dot), esc), unescaped(s.subrange(dot + 1, end), esc))
    } else {
        (Seq::empty(), unescaped(s, esc))
    }
}

fn find_outside_dot(chars: &Vec<char>, from: usize, esc: char) -> (r: usize)
    requires
        from <= chars@.len(),
    ensures
        r == outside_dot(chars@, from as int, esc, false),
        from <= r <= chars@.len(),
{
    let mut i: usize = from;
    let mut inside = false;
    while i < chars.len()
        invariant
            from <= i <= chars@.len(),
            outside_dot(chars@, from as int, esc, false) == outside_dot(chars@, i as int, esc, inside),
        decreases chars.len() - i,
    {
        if chars[i] == esc {
            inside = !inside;
        } else if chars[i] == '.' && !inside {
            return i;
        }
        i = i + 1;
    }
    i
}

fn unescaped_text(chars: &Vec<char>, from: usize, to: usize, esc: char) -> (r: String)
    requires
        from <= to <= chars@.len(),
    ensures
        r@ == unescaped(chars@.subrange(from as int, to as int), esc),
{
    let ghost name = chars@.subrange(from as int, to as int);
    let strip = to - from >= 2 && chars[from] == esc && chars[to - 1] == esc;
    let first: usize = if strip {
        from + 1
    } else {
        from
    };
    let last: usize = if strip {
        to - 1
    } else {
        to
    };
    let mut out = String::new();
    let mut i: usize = first;
    assert(out@ =~= chars@.subrange(first as int, i as int));
    while i < last
        invariant
            first <= i <= last <= chars@.len(),
            out@ == chars@.subrange(first as int, i as int),
        decreases last - i,
    {
        push_char(&mut out, chars[i]);
        assert(out@ =~= chars@.subrange(first as int, i + 1));
        i = i + 1;
    }
    proof {
        if strip {
            assert(name[0] == chars@[from as int]);
            assert(name.last() == chars@[to - 1]);
            assert(chars@.subrange(first as int, last as int) =~= name.subrange(1, name.len() - 1));
        } else {
            assert(name.len() >= 2 ==> name[0] == chars@[from as int] && name.last() == chars@[to - 1]);
        }
    }
    out
}

/// The `(db, tb)` that a full table name stands for under the escape
/// character of `db_type`.
pub fn parse_full_tb_name(name: &String, db_type: &DbType) -> (r: (String, String))
    ensures
        (r.0@, r.1@) == full_tb_name(name@, escape_char(*db_type)),
{
    let esc = match db_type {
        DbType::Pg => '"',
        _ => '`',
    };
    let chars = to_chars(name);
    let dot = find_outside_dot(&chars, 0, esc);
    if dot < chars.len() {
        let end = find_outside_dot(&chars, dot + 1, esc);
        (unescaped_text(&chars, 0, dot, esc), unescaped_text(&chars, dot + 1, end, esc))
    } else {
        assert(chars@.subrange(0, chars@.len() as int) =~= chars@);
        (String::new(), unescaped_text(&chars, 0, chars.len(), esc))
    }
}

/// The tables that the lines of a list of filtered tables name, one full
/// table name per line.
pub fn parse_filtered_tbs(lines: &Vec<String>, db_type: &DbType) -> (r: Vec<(String, String)>)
    ensures
        db_tbs_view(r@) == lines@.map_values(|l: String| full_tb_name(l@, escape_char(*db_type))),
{
    let mut out: Vec<(String, String)> = Vec::new();
    let mut i: usize = 0;
    while i < lines.len()
        invariant
            i <= lines.len(),
            out@.len() == i,
            forall|j: int|
                0 <= j < i ==> ((#[trigger] out@[j]).0@, out@[j].1@) == full_tb_name(
                    lines@[j]@,
                    escape_char(*db_type),
                ),
        decreases lines.len() - i,
    {
        out.push(parse_full_tb_name(&lines[i], db_type));
        i = i + 1;
    }
    assert(db_tbs_view(out@) =~= lines@.map_values(|l: String| full_tb_name(l@, escape_char(*db_type))));
    out
}

} // verus!
