//! Battery history: the name of the file that holds the history of one
//! device, and the lines of that file.
//!
//! A history file is text in lines. Its first line is a header; each other
//! line holds a time stamp, the label of a characteristic and a level,
//! separated by commas.

use crate::text::{decimal, lemma_decimal_round_trip, parse_i32, parsed_i32, push_char, push_i32};
use vstd::prelude::*;

verus! {

/// Whether `char::is_alphanumeric` holds of `c`.
pub uninterp spec fn unicode_alphanumeric(c: char) -> bool;

/// Asks `char::is_alphanumeric` whether `c` is a letter or a number.
#[verifier::external_body]
fn is_alphanumeric(c: char) -> (alphanumeric: bool)
    ensures
        alphanumeric == unicode_alphanumeric(c),
{
    c.is_alphanumeric()
}

/// The character that stands for `c` in a file name, where `alphanumeric`
/// says whether `c` is a letter or a number: `c` itself when it is one, a
/// hyphen or an underscore, and an underscore otherwise.
pub open spec fn sanitized_char(c: char, alphanumeric: bool) -> char {
    if alphanumeric || c == '-' || c == '_' {
        c
    } else {
        '_'
    }
}

/// The text `s` with every character replaced by what stands for it in a
/// file name.
pub open spec fn sanitized(s: Seq<char>) -> Seq<char> {
    s.map_values(|c: char| sanitized_char(c, unicode_alphanumeric(c)))
}

/// The name of the history file of the device called `device_name` with the
/// id `ble_id`.
pub open spec fn filename_of(device_name: Seq<char>, ble_id: Seq<char>) -> Seq<char> {
    sanitized(device_name) + seq!['_'] + sanitized(ble_id) + seq!['.', 'c', 's', 'v']
}

/// The character that stands for `c` in a file name, where `alphanumeric`
/// says whether `c` is a letter or a number.
pub fn sanitize_char(c: char, alphanumeric: bool) -> (kept: char)
    ensures
        kept == sanitized_char(c, alphanumeric),
{
    if alphanumeric || c == '-' || c == '_' {
        c
    } else {
        '_'
    }
}

/// Appends to `text` what stands for `s` in a file name.
fn push_sanitized(text: &mut String, s: &str)
    ensures
        final(text)@ == old(text)@ + sanitized(s@),
{
    let ghost start = text@;
    for c in it: s.chars()
        invariant
            it.seq() == s@,
            text@ == start + sanitized(s@.take(it.index())),
    {
        let ghost position = it.index();
        push_char(text, sanitize_char(c, is_alphanumeric(c)));
        proof {
            assert(sanitized(s@.take(position + 1)) =~= sanitized(s@.take(position)).push(
                sanitized_char(c, unicode_alphanumeric(c)),
            ));
            assert(text@ =~= start + sanitized(s@.take(position + 1)));
        }
    }
    proof {
        assert(s@.take(s@.len() as int) =~= s@);
    }
}

/// The name of the history file of the device called `device_name` with the
/// id `ble_id`: both with every character that is no letter, number, hyphen
/// or underscore replaced by an underscore, joined by an underscore and
/// ended by `.csv`.
pub fn safe_filename(device_name: &str, ble_id: &str) -> (name: String)
    ensures
        name@ == filename_of(device_name@, ble_id@),
{
    let mut name = String::new();
    push_sanitized(&mut name, device_name);
    push_char(&mut name, '_');
    push_sanitized(&mut name, ble_id);
    push_char(&mut name, '.');
    push_char(&mut name, 'c');
    push_char(&mut name, 's');
    push_char(&mut name, 'v');
    proof {
        assert(name@ =~= filename_of(device_name@, ble_id@));
    }
    name
}

/// A sanitized text is as long as the text, holds only letters, numbers,
/// hyphens and underscores, and sanitizing it again changes nothing.
pub proof fn lemma_sanitized(s: Seq<char>)
    ensures
        sanitized(s).len() == s.len(),
        forall|i: int|
            0 <= i < s.len() ==> {
                let c = #[trigger] sanitized(s)[i];
                unicode_alphanumeric(c) || c == '-' || c == '_'
            },
        sanitized(sanitized(s)) == sanitized(s),
{
    assert(sanitized(sanitized(s)) =~= sanitized(s));
}

/// One line of a history file.
#[derive(Clone, Debug, PartialEq, Eq)]
pub struct BatteryHistoryRecord {
    pub timestamp: String,
    pub user_description: String,
    pub battery_level: i32,
}

/// The mathematical content of a [`BatteryHistoryRecord`].
pub struct RecordModel {
    pub timestamp: Seq<char>,
    pub user_description: Seq<char>,
    pub battery_level: int,
}

impl View for BatteryHistoryRecord {
    type V = RecordModel;

    open spec fn view(&self) -> RecordModel {
        RecordModel {
            timestamp: self.timestamp@,
            user_description: self.user_description@,
            battery_level: self.battery_level as int,
        }
    }
}

/// The records of `records`, each by its content.
pub open spec fn record_models(records: Seq<BatteryHistoryRecord>) -> Seq<RecordModel> {
    records.map_values(|r: BatteryHistoryRecord| r@)
}

/// The header of a history file.
pub open spec fn header() -> Seq<char> {
    "timestamp,user_description,battery_level"@
}

/// The position of the first comma of `s`.
pub open spec fn first_comma(s: Seq<char>) -> Option<int>
    decreases s.len(),
{
    if s.len() == 0 {
        None
    } else {
        match first_comma(s.drop_last()) {
            Some(i) => Some(i),
            None => if s.last() == ',' {
                Some(s.len() - 1)
            } else {
                None
            },
        }
    }
}

/// The level that the last field of a line gives: the number it writes, or
/// -1 when it writes none.
pub open spec fn level_field(field: Seq<char>) -> int {
    match parsed_i32(field) {
        Some(level) => level as int,
        None => -1,
    }
}

/// The record that a line gives: what stands before its first comma, what
/// stands between its first and its second comma, and the level that the
/// rest gives. A line with fewer than two commas gives none.
pub open spec fn record_of(line: Seq<char>) -> Option<RecordModel> {
    match first_comma(line) {
        None => None,
        Some(i) => {
            let rest = line.skip(i + 1);
            match first_comma(rest) {
                None => None,
                Some(j) => Some(
                    RecordModel {
                        timestamp: line.take(i),
                        user_description: rest.take(j),
                        battery_level: level_field(rest.skip(j + 1)),
                    },
                ),
            }
        },
    }
}

/// The records of a history file with these lines: those that its lines
/// after the first give, in order.
pub open spec fn records_of(lines: Seq<Seq<char>>) -> Seq<RecordModel>
    decreases lines.len(),
{
    if lines.len() <= 1 {
        Seq::empty()
    } else {
        let front = records_of(lines.drop_last());
        match record_of(lines.last()) {
            Some(record) => front.push(record),
            None => front,
        }
    }
}

/// The line that holds `record`.
pub open spec fn line_of(record: RecordModel) -> Seq<char> {
    record.timestamp + seq![','] + record.user_description + seq![','] + decimal(
        record.battery_level,
    )
}

/// What is added to a history file for `record`: its line, after the header
/// where the file is new, each ended by a line feed.
pub open spec fn entry_of(new_file: bool, record: RecordModel) -> Seq<char> {
    if new_file {
        header() + seq!['\n'] + line_of(record) + seq!['\n']
    } else {
        line_of(record) + seq!['\n']
    }
}

/// The first comma is a comma, and nothing before it is.
pub proof fn lemma_first_comma(s: Seq<char>)
    ensures
        match first_comma(s) {
            Some(i) => 0 <= i < s.len() && s[i] == ',' && forall|j: int|
                0 <= j < i ==> s[j] != ',',
            None => forall|j: int| 0 <= j < s.len() ==> s[j] != ',',
        },
    decreases s.len(),
{
    if s.len() > 0 {
        let front = s.drop_last();
        lemma_first_comma(front);
        assert forall|j: int| 0 <= j < front.len() implies front[j] == s[j] by {}
    }
}

/// A comma with no comma before it is the first comma.
pub proof fn lemma_first_comma_at(s: Seq<char>, i: int)
    requires
        0 <= i < s.len(),
        s[i] == ',',
        forall|j: int| 0 <= j < i ==> s[j] != ',',
    ensures
        first_comma(s) == Some(i),
{
    lemma_first_comma(s);
}

/// The position of the first comma of `s` at or after `from`, counted from
/// `from`.
fn find_comma(s: &str, from: usize) -> (found: Option<usize>)
    requires
        from <= s@.len(),
    ensures
        match found {
            Some(i) => from + i < s@.len() && first_comma(s@.skip(from as int)) == Some(i as int),
            None => first_comma(s@.skip(from as int)) is None,
        },
{
    let length = s.unicode_len();
    let ghost rest = s@.skip(from as int);
    let mut position: usize = 0;
    for c in it: s.chars()
        invariant
            it.seq() == s@,
            length == s@.len(),
            from <= length,
            rest == s@.skip(from as int),
            position == it.index(),
            forall|j: int| from <= j < position ==> s@[j] != ',',
    {
        if position >= from && c == ',' {
            proof {
                assert forall|j: int| 0 <= j < position - from implies rest[j] != ',' by {
                    assert(rest[j] == s@[from + j]);
                }
                lemma_first_comma_at(rest, position - from);
            }
            return Some(position - from);
        }
        position += 1;
    }
    proof {
        lemma_first_comma(rest);
        match first_comma(rest) {
            Some(i) => {
                assert(rest[i] == s@[from + i]);
            },
            None => {},
        }
    }
    None
}

/// Reads one line of a history file. A line with fewer than two commas
/// gives nothing; a last field that writes no number gives the level -1.
pub fn parse_history_line(line: &str) -> (record: Option<BatteryHistoryRecord>)
    ensures
        match record {
            Some(found) => record_of(line@) == Some(found@),
            None => record_of(line@) is None,
        },
{
    let length = line.unicode_len();
    proof {
        assert(line@.skip(0) =~= line@);
    }
    let first = match find_comma(line, 0) {
        Some(i) => i,
        None => {
            return None;
        },
    };
    let second = match find_comma(line, first + 1) {
        Some(j) => j,
        None => {
            return None;
        },
    };
    let timestamp = line.substring_char(0, first);
    let user_description = line.substring_char(first + 1, first + 1 + second);
    let level_text = line.substring_char(first + 2 + second, length);
    let ghost rest = line@.skip(first + 1);
    proof {
        assert(timestamp@ =~= line@.take(first as int));
        assert(user_description@ =~= rest.take(second as int));
        assert(level_text@ =~= rest.skip(second + 1));
    }
    let battery_level = match parse_i32(level_text) {
        Some(level) => level,
        None => -1,
    };
    Some(
        BatteryHistoryRecord {
            timestamp: timestamp.to_owned(),
            user_description: user_description.to_owned(),
            battery_level,
        },
    )
}

/// The lines of `lines`, each as text.
pub open spec fn texts(lines: Seq<String>) -> Seq<Seq<char>> {
    lines.map_values(|line: String| line@)
}

/// Reads the lines of a history file: the first line is the header and is
/// passed over, and so is every line that gives no record.
pub fn parse_history(lines: &Vec<String>) -> (records: Vec<BatteryHistoryRecord>)
    ensures
        record_models(records@) == records_of(texts(lines@)),
{
    let mut records: Vec<BatteryHistoryRecord> = Vec::new();
    let mut i: usize = 0;
    proof {
        assert(record_models(records@) =~= Seq::<RecordModel>::empty());
    }
    while i < lines.len()
        invariant
            i <= lines.len(),
            record_models(records@) == records_of(texts(lines@.take(i as int))),
        decreases lines.len() - i,
    {
        proof {
            assert(texts(lines@.take(i + 1)).drop_last() =~= texts(lines@.take(i as int)));
            assert(texts(lines@.take(i + 1)).last() == lines@[i as int]@);
        }
        if i > 0 {
            match parse_history_line(lines[i].as_str()) {
                Some(record) => {
                    let ghost earlier = records@;
                    records.push(record);
                    proof {
                        assert(record_models(records@) =~= record_models(earlier).push(record@));
                    }
                },
                None => {},
            }
        }
        i += 1;
    }
    proof {
        assert(lines@.take(i as int) == lines@);
    }
    records
}

/// Appends the line of a record to `text`.
fn push_line(text: &mut String, timestamp: &str, user_description: &str, battery_level: i32)
    ensures
        final(text)@ == old(text)@ + line_of(
            RecordModel {
                timestamp: timestamp@,
                user_description: user_description@,
                battery_level: battery_level as int,
            },
        ),
{
    text.append(timestamp);
    push_char(text, ',');
    text.append(user_description);
    push_char(text, ',');
    push_i32(text, battery_level);
    proof {
        assert(final(text)@ =~= old(text)@ + line_of(
            RecordModel {
                timestamp: timestamp@,
                user_description: user_description@,
                battery_level: battery_level as int,
            },
        ));
    }
}

/// The line of a history file that holds these values.
pub fn format_history_line(timestamp: &str, user_description: &str, battery_level: i32) -> (line:
    String)
    ensures
        line@ == line_of(
            RecordModel {
                timestamp: timestamp@,
                user_description: user_description@,
                battery_level: battery_level as int,
            },
        ),
{
    let mut line = String::new();
    push_line(&mut line, timestamp, user_description, battery_level);
    proof {
        assert(Seq::<char>::empty() + line@ =~= line@);
    }
    line
}

/// The text to add to a history file for these values, where `new_file`
/// says that the file does not exist yet and so needs its header.
pub fn history_entry(
    new_file: bool,
    timestamp: &str,
    user_description: &str,
    battery_level: i32,
) -> (entry: String)
    ensures
        entry@ == entry_of(
            new_file,
            RecordModel {
                timestamp: timestamp@,
                user_description: user_description@,
                battery_level: battery_level as int,
            },
        ),
{
    let mut entry = String::new();
    if new_file {
        entry.append("timestamp,user_description,battery_level");
        push_char(&mut entry, '\n');
    }
    push_line(&mut entry, timestamp, user_description, battery_level);
    push_char(&mut entry, '\n');
    proof {
        assert(entry@ =~= entry_of(
            new_file,
            RecordModel {
                timestamp: timestamp@,
                user_description: user_description@,
                battery_level: battery_level as int,
            },
        ));
    }
    entry
}

/// A record whose time stamp and label hold no comma is read back from its
/// line as it was written.
pub proof fn lemma_line_round_trip(record: RecordModel)
    requires
        forall|i: int| 0 <= i < record.timestamp.len() ==> record.timestamp[i] != ',',
        forall|i: int| 0 <= i < record.user_description.len() ==> record.user_description[i] != ',',
        i32::MIN <= record.battery_level <= i32::MAX,
    ensures
        record_of(line_of(record)) == Some(record),
{
    let line = line_of(record);
    let first = record.timestamp.len() as int;
    let second = record.user_description.len() as int;
    lemma_first_comma_at(line, first);
    let rest = line.skip(first + 1);
    assert(rest =~= record.user_description + seq![','] + decimal(record.battery_level));
    lemma_first_comma_at(rest, second);
    assert(line.take(first) =~= record.timestamp);
    assert(rest.take(second) =~= record.user_description);
    assert(rest.skip(second + 1) =~= decimal(record.battery_level));
    lemma_decimal_round_trip(record.battery_level as i32);
}

} // verus!
