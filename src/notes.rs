//! Note start times from the text of a beatmap file.
//!
//! The notes are the lines after the `[HitObjects]` header. Each line is a
//! comma-separated record whose third field is the note's start time in ms.
use vstd::prelude::*;

use crate::decimal::{i32_value, parse_i32};
use vstd::string::StringSliceAdditionalSpecFns;

verus! {

#[derive(Debug, PartialEq, Eq, Structural, Clone, Copy)]
pub enum NoteError {
    /// The line has fewer than three fields.
    MissingTime,
    /// The third field is not an integer that fits in 32 bits.
    InvalidTime,
}

pub const COMMA: u8 = 44;

pub const NEWLINE: u8 = 10;

pub const CARRIAGE_RETURN: u8 = 13;

/// The first index at or after `from` that holds `c`, or the length of `b`.
pub open spec fn next_index(b: Seq<u8>, from: int, c: u8) -> int
    decreases b.len() - from,
{
    if from >= b.len() {
        b.len() as int
    } else if b[from] == c {
        from
    } else {
        next_index(b, from + 1, c)
    }
}

/// Where the third comma-separated field of `line` lies, if there is one.
pub open spec fn third_field(line: Seq<u8>) -> Option<(int, int)> {
    let c1 = next_index(line, 0, COMMA);
    let c2 = next_index(line, c1 + 1, COMMA);
    if c1 >= line.len() || c2 >= line.len() {
        None
    } else {
        Some((c2 + 1, next_index(line, c2 + 1, COMMA)))
    }
}

/// The start time that a note line gives.
pub open spec fn note_time(line: Seq<u8>) -> Result<i32, NoteError> {
    match third_field(line) {
        None => Err(NoteError::MissingTime),
        Some((s, e)) => match i32_value(line.subrange(s, e)) {
            Some(v) => Ok(v),
            None => Err(NoteError::InvalidTime),
        },
    }
}

/// The bytes of the `[HitObjects]` header line.
pub open spec fn header() -> Seq<u8> {
    seq![91u8, 72, 105, 116, 79, 98, 106, 101, 99, 116, 115, 93]
}

/// A line without its final carriage return, if it has one: a `\r\n` ends a
/// line as a `\n` does.
pub open spec fn strip_cr(line: Seq<u8>) -> Seq<u8> {
    if line.len() > 0 && line.last() == CARRIAGE_RETURN {
        line.drop_last()
    } else {
        line
    }
}

/// The note times of the lines from index `i` on, appended to `acc`: lines
/// before the header are skipped, every line after it must be a note.
pub open spec fn notes_from(b: Seq<u8>, i: int, in_section: bool, acc: Seq<i32>) -> Result<
    Seq<i32>,
    NoteError,
>
    decreases b.len() + 1 - i,
{
    let e = next_index(b, i, NEWLINE);
    if i < 0 || i >= b.len() || e < i || e > b.len() {
        Ok(acc)
    } else {
        let line = if e < b.len() {
            strip_cr(b.subrange(i, e))
        } else {
            b.subrange(i, e)
        };
        if !in_section {
            notes_from(b, e + 1, line == header(), acc)
        } else {
            match note_time(line) {
                Ok(t) => notes_from(b, e + 1, true, acc.push(t)),
                Err(x) => Err(x),
            }
        }
    }
}

pub fn find_byte(b: &[u8], from: usize, c: u8) -> (r: usize)
    requires
        from <= b@.len(),
    ensures
        r == next_index(b@, from as int, c),
        from <= r <= b@.len(),
{
    let mut i = from;
    while i < b.len()
        invariant
            from <= i <= b@.len(),
            next_index(b@, from as int, c) == next_index(b@, i as int, c),
        decreases b@.len() - i,
    {
        if b[i] == c {
            return i;
        }
        i = i + 1;
    }
    i
}

fn copy_range(b: &[u8], start: usize, end: usize) -> (r: Vec<u8>)
    requires
        start <= end <= b@.len(),
    ensures
        r@ == b@.subrange(start as int, end as int),
{
    let mut r: Vec<u8> = Vec::new();
    let mut i = start;
    while i < end
        invariant
            start <= i <= end <= b@.len(),
            r@ == b@.subrange(start as int, i as int),
        decreases end - i,
    {
        r.push(b[i]);
        assert(r@ =~= b@.subrange(start as int, i + 1));
        i = i + 1;
    }
    r
}

fn note_time_of(line: &[u8]) -> (r: Result<i32, NoteError>)
    ensures
        r == note_time(line@),
{
    let c1 = find_byte(line, 0, COMMA);
    if c1 >= line.len() {
        return Err(NoteError::MissingTime);
    }
    let c2 = find_byte(line, c1 + 1, COMMA);
    if c2 >= line.len() {
        return Err(NoteError::MissingTime);
    }
    let c3 = find_byte(line, c2 + 1, COMMA);
    match parse_i32(line, c2 + 1, c3) {
        Some(v) => Ok(v),
        None => Err(NoteError::InvalidTime),
    }
}

/// Reads the start time of a note line: the third comma-separated field.
pub fn read_note(line: &str) -> (r: Result<i32, NoteError>)
    ensures
        r == note_time(line.spec_bytes()),
{
    note_time_of(line.as_bytes())
}

fn is_header(b: &[u8], start: usize, end: usize) -> (r: bool)
    requires
        start <= end <= b@.len(),
    ensures
        r == (b@.subrange(start as int, end as int) == header()),
{
    let expected: [u8; 12] = [91, 72, 105, 116, 79, 98, 106, 101, 99, 116, 115, 93];
    assert(expected@ =~= header());
    if end - start != 12 {
        return false;
    }
    let mut i: usize = 0;
    while i < 12
        invariant
            end - start == 12,
            start <= end <= b@.len(),
            expected@ == header(),
            forall|k: int| 0 <= k < i ==> b@[start + k] == header()[k],
        decreases 12 - i,
    {
        if b[start + i] != expected[i] {
            assert(b@.subrange(start as int, end as int)[i as int] != header()[i as int]);
            return false;
        }
        i = i + 1;
    }
    assert(b@.subrange(start as int, end as int) =~= header());
    true
}

/// The start times of all notes in a beatmap file's text, in file order.
/// Fails at the first line after the `[HitObjects]` header that is not a
/// note; a text without the header has no notes.
pub fn parse_hit_objects(content: &str) -> (r: Result<Vec<i32>, NoteError>)
    ensures
        match notes_from(content.spec_bytes(), 0, false, Seq::empty()) {
            Ok(s) => r matches Ok(v) && v@ == s,
            Err(e) => r == Err::<Vec<i32>, NoteError>(e),
        },
{
    let b = content.as_bytes();
    let ghost bs = b@;
    let mut notes: Vec<i32> = Vec::new();
    let mut in_section = false;
    let mut i: usize = 0;
    while i < b.len()
        invariant
            bs == b@,
            bs == content.spec_bytes(),
            i <= b@.len(),
            notes_from(bs, 0, false, Seq::empty()) == notes_from(
                bs,
                i as int,
                in_section,
                notes@,
            ),
        decreases b@.len() - i,
    {
        let ghost old_section = in_section;
        let ghost old_notes = notes@;
        let e = find_byte(b, i, NEWLINE);
        let mut line_end = e;
        if e < b.len() && e > i && b[e - 1] == CARRIAGE_RETURN {
            line_end = e - 1;
            assert(b@.subrange(i as int, e as int).drop_last() =~= b@.subrange(
                i as int,
                line_end as int,
            ));
        }
        assert((if e < b@.len() {
            strip_cr(b@.subrange(i as int, e as int))
        } else {
            b@.subrange(i as int, e as int)
        }) == b@.subrange(i as int, line_end as int));
        if !in_section {
            in_section = is_header(b, i, line_end);
        } else {
            let line = copy_range(b, i, line_end);
            match note_time_of(line.as_slice()) {
                Ok(t) => notes.push(t),
                Err(x) => {
                    return Err(x);
                },
            }
        }
        assert(notes_from(bs, i as int, old_section, old_notes) == notes_from(
            bs,
            e + 1,
            in_section,
            notes@,
        ));
        if e == b.len() {
            assert(notes_from(bs, e + 1, in_section, notes@) == Ok::<Seq<i32>, NoteError>(notes@));
            return Ok(notes);
        }
        i = e + 1;
    }
    Ok(notes)
}

} // verus!
