//! The scrollback log, as far as it is text: where a conversation is kept,
//! how records are laid out in a log, and which of them a read returns.
//!
//! A log is a text of records, one per line, oldest first. Reading and
//! writing the file, and turning a record into a message and back, is the
//! caller's part.

use crate::messages::ChatMessage;
use crate::text::{
    chars_of,
    find_char,
    find_first,
    is_space,
    is_whitespace,
    lemma_find_char_bounds,
    lemma_skip_spaces_bounds,
    lemma_trim_end_bounds,
    push_char,
    skip_spaces,
    string_of,
    trim_end,
    trimmed,
};
use vstd::prelude::*;

verus! {

/// Whether a character may stand in a file name as it is.
pub open spec fn is_plain(c: char) -> bool {
    ('a' <= c && c <= 'z') || ('A' <= c && c <= 'Z') || ('0' <= c && c <= '9') || c == '-' || c
        == '_' || c == '.'
}

/// A text made safe for use as one path component: every character that is
/// not an ASCII letter, a digit, `-`, `_` or `.` becomes `_`, and the empty
/// text becomes `_`.
pub open spec fn sanitized(input: Seq<char>) -> Seq<char> {
    if input.len() == 0 {
        seq!['_']
    } else {
        Seq::new(
            input.len(),
            |i: int|
                if is_plain(input[i]) {
                    input[i]
                } else {
                    '_'
                },
        )
    }
}

fn plain(c: char) -> (r: bool)
    ensures
        r == is_plain(c),
{
    ('a' <= c && c <= 'z') || ('A' <= c && c <= 'Z') || ('0' <= c && c <= '9') || c == '-' || c
        == '_' || c == '.'
}

/// Makes a text safe for use as one path component.
pub fn sanitize_component(input: &str) -> (out: String)
    ensures
        out@ == sanitized(input@),
{
    let chars = chars_of(input);
    let mut out = String::new();
    let mut i: usize = 0;
    while i < chars.len()
        invariant
            i <= chars.len(),
            chars@ == input@,
            out@ =~= Seq::new(
                i as nat,
                |k: int|
                    if is_plain(input@[k]) {
                        input@[k]
                    } else {
                        '_'
                    },
            ),
        decreases chars.len() - i,
    {
        let c = chars[i];
        if plain(c) {
            push_char(&mut out, c);
        } else {
            push_char(&mut out, '_');
        }
        i += 1;
    }
    if chars.len() == 0 {
        push_char(&mut out, '_');
    }
    assert(out@ =~= sanitized(input@));
    out
}

/// Where the scrollback files live.
#[derive(Debug, Clone, PartialEq, Eq)]
pub struct ScrollbackStore {
    base_dir: String,
}

impl View for ScrollbackStore {
    type V = Seq<char>;

    closed spec fn view(&self) -> Seq<char> {
        self.base_dir@
    }
}

/// The path of a conversation's log, one component per entry: the base
/// directory, the sanitized identity key, and the sanitized target with the
/// extension `.jsonl`.
pub open spec fn log_path(base_dir: Seq<char>, storage_key: Seq<char>, target: Seq<char>) -> Seq<
    Seq<char>,
> {
    seq![base_dir, sanitized(storage_key), sanitized(target) + ".jsonl"@]
}

impl ScrollbackStore {
    /// A store rooted at `base_dir`.
    pub fn new(base_dir: String) -> (store: ScrollbackStore)
        ensures
            store@ == base_dir@,
    {
        ScrollbackStore { base_dir }
    }

    /// The directory under which the logs are kept.
    pub fn base_dir(&self) -> (dir: &String)
        ensures
            dir@ == self@,
    {
        &self.base_dir
    }

    /// The components of the path of the log that holds `target`'s
    /// conversation on the connection identified by `storage_key`.
    pub fn target_path(&self, storage_key: &str, target: &str) -> (path: Vec<String>)
        ensures
            path.deep_view() == log_path(self@, storage_key@, target@),
    {
        let mut file = sanitize_component(target);
        file.append(".jsonl");
        let mut path: Vec<String> = Vec::new();
        path.push(self.base_dir.clone());
        path.push(sanitize_component(storage_key));
        path.push(file);
        assert(path.deep_view() =~= log_path(self@, storage_key@, target@));
        path
    }
}

/// A record as it is laid out in a log: followed by a line feed.
pub open spec fn record_text(record: Seq<char>) -> Seq<char> {
    record.push('\n')
}

/// The text of a log to which `records` were appended in order.
pub open spec fn log_text(records: Seq<Seq<char>>) -> Seq<char>
    decreases records.len(),
{
    if records.len() == 0 {
        Seq::empty()
    } else {
        log_text(records.drop_last()) + record_text(records.last())
    }
}

/// The line that starts at `i` and ends before `end`, without the carriage
/// return of a CR LF ending.
pub open spec fn line_between(s: Seq<char>, i: int, end: int) -> Seq<char> {
    if i < end < s.len() && s[end - 1] == '\r' {
        s.subrange(i, end - 1)
    } else {
        s.subrange(i, end)
    }
}

/// The lines of `s` from index `i` on. A line ends at a line feed or at the
/// end of the text; a carriage return directly before the line feed belongs
/// to the ending. Nothing follows the last line feed.
pub open spec fn lines_from(s: Seq<char>, i: int) -> Seq<Seq<char>>
    decreases s.len() - i,
{
    if 0 <= i < s.len() {
        let end = find_char(s, '\n', i);
        if i <= end < s.len() {
            seq![line_between(s, i, end)] + lines_from(s, end + 1)
        } else {
            seq![s.subrange(i, s.len() as int)]
        }
    } else {
        Seq::empty()
    }
}

/// Whether a line holds anything but white space.
pub open spec fn is_record(line: Seq<char>) -> bool {
    trimmed(line).len() > 0
}

/// The records of a log: its lines, without those that are blank.
pub open spec fn log_records(data: Seq<char>) -> Seq<Seq<char>> {
    lines_from(data, 0).filter(|line: Seq<char>| is_record(line))
}

/// Which entries a read returns: all of them, or with a limit below their
/// number the most recent ones up to the limit.
pub open spec fn latest<T>(entries: Seq<T>, limit: Option<usize>) -> Seq<T> {
    match limit {
        Some(k) => if entries.len() > k {
            entries.subrange(entries.len() - k, entries.len() as int)
        } else {
            entries
        },
        None => entries,
    }
}

/// Lays out one record for appending to a log.
pub fn encode_record(record: &str) -> (text: String)
    ensures
        text@ == record_text(record@),
{
    let mut text = record.to_owned();
    push_char(&mut text, '\n');
    text
}

/// The records of a log, oldest first.
pub fn read_records(data: &str) -> (records: Vec<String>)
    ensures
        records.deep_view() == log_records(data@),
{
    let chars = chars_of(data);
    let ghost keep = |line: Seq<char>| is_record(line);
    let mut records: Vec<String> = Vec::new();
    let mut i: usize = 0;
    proof {
        assert(Seq::<Seq<char>>::empty().filter(keep) =~= Seq::<Seq<char>>::empty()) by {
            reveal(Seq::filter);
        }
    }
    while i < chars.len()
        invariant
            chars@ == data@,
            keep == |line: Seq<char>| is_record(line),
            log_records(data@) == records.deep_view() + lines_from(data@, i as int).filter(keep),
        decreases chars.len() + 1 - i,
    {
        let mut end: usize = i;
        while end < chars.len() && chars[end] != '\n'
            invariant
                i <= end <= chars.len(),
                find_char(chars@, '\n', i as int) == find_char(chars@, '\n', end as int),
            decreases chars.len() - end,
        {
            end += 1;
        }
        let stop = if i < end && end < chars.len() && chars[end - 1] == '\r' {
            end - 1
        } else {
            end
        };
        let ghost line = line_between(chars@, i as int, end as int);
        let ghost rest = lines_from(chars@, end + 1);
        proof {
            lemma_find_char_bounds(chars@, '\n', i as int);
            assert(lines_from(chars@, i as int) =~= seq![line] + rest);
            Seq::filter_distributes_over_add(seq![line], rest, keep);
            lemma_filter_one(line);
        }
        let first = skip_whitespace_until(&chars, i, stop);
        if first < stop {
            let ghost before = records.deep_view();
            let record = string_of(&chars, i, stop);
            records.push(record);
            assert(records.deep_view() =~= before.push(line));
            proof {
                lemma_not_blank(line, first - i);
            }
            assert(log_records(data@) =~= records.deep_view() + rest.filter(keep));
        } else {
            proof {
                lemma_blank(line);
            }
            assert(log_records(data@) =~= records.deep_view() + rest.filter(keep));
        }
        if end == chars.len() {
            assert(rest =~= Seq::<Seq<char>>::empty());
            i = end;
        } else {
            i = end + 1;
        }
    }
    proof {
        assert(lines_from(data@, i as int) =~= Seq::<Seq<char>>::empty());
        assert(records.deep_view() + Seq::<Seq<char>>::empty() =~= records.deep_view());
    }
    records
}

proof fn lemma_filter_one(line: Seq<char>)
    ensures
        seq![line].filter(|l: Seq<char>| is_record(l)) == if is_record(line) {
            seq![line]
        } else {
            Seq::<Seq<char>>::empty()
        },
{
    reveal_with_fuel(Seq::filter, 2);
    let keep = |l: Seq<char>| is_record(l);
    assert(seq![line].drop_last() =~= Seq::<Seq<char>>::empty());
    assert(seq![line].last() == line);
    assert(seq![line].filter(keep) =~= if is_record(line) {
        seq![line]
    } else {
        Seq::<Seq<char>>::empty()
    });
}

/// First index in `[from, to)` that holds no white space, or `to`.
fn skip_whitespace_until(v: &Vec<char>, from: usize, to: usize) -> (r: usize)
    requires
        from <= to <= v.len(),
    ensures
        from <= r <= to,
        forall|k: int| from <= k < r ==> is_space(#[trigger] v@[k]),
        r < to ==> !is_space(v@[r as int]),
{
    let mut k: usize = from;
    while k < to && is_whitespace(v[k])
        invariant
            from <= k <= to <= v.len(),
            forall|j: int| from <= j < k ==> is_space(#[trigger] v@[j]),
        decreases to - k,
    {
        k += 1;
    }
    k
}

/// A line with a character that is not white space is a record.
proof fn lemma_not_blank(line: Seq<char>, at: int)
    requires
        0 <= at < line.len(),
        !is_space(line[at]),
    ensures
        is_record(line),
{
    lemma_skip_spaces_bounds(line, 0);
    let lo = skip_spaces(line, 0);
    assert(lo <= at);
    lemma_trim_end_bounds(line, lo, line.len() as int);
    let hi = trim_end(line, lo, line.len() as int);
    if hi <= at {
        assert(is_space(line[at]));
    }
}

/// A line of white space only is no record.
proof fn lemma_blank(line: Seq<char>)
    requires
        forall|k: int| 0 <= k < line.len() ==> is_space(#[trigger] line[k]),
    ensures
        !is_record(line),
{
    lemma_skip_spaces_bounds(line, 0);
    let lo = skip_spaces(line, 0);
    lemma_trim_end_bounds(line, lo, line.len() as int);
}

/// Keeps the entries a read returns: all of them, or with a limit below
/// their number the most recent ones up to the limit.
pub fn last_entries(entries: Vec<ChatMessage>, limit: Option<usize>) -> (kept: Vec<ChatMessage>)
    ensures
        kept@ == latest(entries@, limit),
{
    let mut entries = entries;
    match limit {
        Some(k) => {
            if entries.len() > k {
                let at = entries.len() - k;
                entries.split_off(at)
            } else {
                entries
            }
        },
        None => entries,
    }
}

/// Whether a record can stand on one line of a log and be found again: it
/// holds no line feed, does not end in a carriage return, and is not blank.
pub open spec fn fits_one_line(record: Seq<char>) -> bool {
    &&& forall|k: int| 0 <= k < record.len() ==> #[trigger] record[k] != '\n'
    &&& record.len() > 0 ==> record.last() != '\r'
    &&& is_record(record)
}

proof fn lemma_find_char_is(s: Seq<char>, c: char, i: int, e: int)
    requires
        0 <= i <= e <= s.len(),
        forall|k: int| i <= k < e ==> #[trigger] s[k] != c,
        e < s.len() ==> s[e] == c,
    ensures
        find_char(s, c, i) == e,
    decreases e - i,
{
    if i < e {
        lemma_find_char_is(s, c, i + 1, e);
    }
}

proof fn lemma_lines_append(s: Seq<char>, r: Seq<char>, i: int)
    requires
        0 <= i <= s.len(),
        s.len() > 0 ==> s.last() == '\n',
        forall|k: int| 0 <= k < r.len() ==> #[trigger] r[k] != '\n',
        r.len() > 0 ==> r.last() != '\r',
    ensures
        lines_from(s + record_text(r), i) == lines_from(s, i) + seq![r],
    decreases s.len() - i,
{
    let whole = s + record_text(r);
    if i < s.len() {
        lemma_find_char_bounds(s, '\n', i);
        let end = find_char(s, '\n', i);
        if end == s.len() {
            assert(s[s.len() - 1] == '\n');
        }
        assert forall|k: int| i <= k < end implies #[trigger] whole[k] != '\n' by {
            assert(whole[k] == s[k]);
        }
        assert(whole[end] == s[end]);
        lemma_find_char_is(whole, '\n', i, end);
        assert(line_between(whole, i, end) =~= line_between(s, i, end)) by {
            if i < end {
                assert(whole[end - 1] == s[end - 1]);
            }
        }
        lemma_lines_append(s, r, end + 1);
        assert(lines_from(whole, i) =~= lines_from(s, i) + seq![r]);
    } else {
        let end: int = (s.len() + r.len()) as int;
        assert forall|k: int| i <= k < end implies #[trigger] whole[k] != '\n' by {
            assert(whole[k] == r[k - s.len()]);
        }
        assert(whole[end] == '\n');
        lemma_find_char_is(whole, '\n', i, end);
        if r.len() > 0 {
            assert(whole[end - 1] == r.last());
        }
        assert(line_between(whole, i, end) =~= r);
        assert(lines_from(whole, end + 1) =~= Seq::<Seq<char>>::empty());
        assert(lines_from(s, i) =~= Seq::<Seq<char>>::empty());
        assert(lines_from(whole, i) =~= lines_from(s, i) + seq![r]);
    }
}

proof fn lemma_log_text_ends_line(records: Seq<Seq<char>>)
    ensures
        log_text(records).len() > 0 ==> log_text(records).last() == '\n',
{
}

/// Whether a record can stand on one line of a log and be found again.
pub fn record_fits(record: &str) -> (fits: bool)
    ensures
        fits == fits_one_line(record@),
{
    let chars = chars_of(record);
    let n = chars.len();
    proof {
        lemma_find_char_bounds(chars@, '\n', 0);
    }
    if find_first(&chars, '\n') < n {
        return false;
    }
    if n > 0 && chars[n - 1] == '\r' {
        return false;
    }
    let first = skip_whitespace_until(&chars, 0, n);
    proof {
        if first < n {
            lemma_not_blank(chars@, first as int);
        } else {
            lemma_blank(chars@);
        }
    }
    first < n
}

/// Lays out one record for appending to a log, provided that it can stand
/// on one line; a record that cannot is refused, so that a log holds only
/// records that read back as they were written.
pub fn frame_record(record: &str) -> (text: Option<String>)
    ensures
        match text {
            Some(t) => fits_one_line(record@) && t@ == record_text(record@),
            None => !fits_one_line(record@),
        },
{
    if record_fits(record) {
        Some(encode_record(record))
    } else {
        None
    }
}

/// The lines of a log are the records appended to it, in order, as long as
/// no record holds a line feed or ends in a carriage return.
pub proof fn lemma_lines_of_log(records: Seq<Seq<char>>)
    requires
        forall|j: int| 0 <= j < records.len() ==> fits_one_line(#[trigger] records[j]),
    ensures
        lines_from(log_text(records), 0) == records,
        log_records(log_text(records)) == records,
    decreases records.len(),
{
    let keep = |line: Seq<char>| is_record(line);
    if records.len() == 0 {
        assert(lines_from(log_text(records), 0) =~= records);
        assert(records.filter(keep) =~= records) by {
            reveal(Seq::filter);
        }
    } else {
        let before = records.drop_last();
        assert forall|j: int| 0 <= j < before.len() implies fits_one_line(
            #[trigger] before[j],
        ) by {
            assert(before[j] == records[j]);
        }
        lemma_lines_of_log(before);
        lemma_log_text_ends_line(before);
        lemma_lines_append(log_text(before), records.last(), 0);
        assert(before + seq![records.last()] =~= records);
        Seq::filter_distributes_over_add(before, seq![records.last()], keep);
        lemma_filter_one(records.last());
    }
}

/// What decoding makes of the records that were read: the entries of the
/// records that decode, in order.
pub open spec fn decoded<T>(records: Seq<Seq<char>>, decode: spec_fn(Seq<char>) -> Option<T>) -> Seq<
    T,
> {
    records.filter_map(decode)
}

proof fn lemma_decode_encoded<T>(
    entries: Seq<T>,
    encode: spec_fn(T) -> Seq<char>,
    decode: spec_fn(Seq<char>) -> Option<T>,
)
    requires
        forall|e: T| #[trigger] decode(encode(e)) == Some(e),
    ensures
        decoded(entries.map_values(encode), decode) == entries,
    decreases entries.len(),
{
    reveal(Seq::filter_map);
    let records = entries.map_values(encode);
    if entries.len() == 0 {
        assert(records.filter_map(decode) =~= entries);
    } else {
        lemma_decode_encoded(entries.drop_last(), encode, decode);
        assert(records.drop_last() =~= entries.drop_last().map_values(encode));
        assert(records.last() == encode(entries.last()));
        assert(entries.drop_last() + seq![entries.last()] =~= entries);
    }
}

/// Appending entries to a log and reading the log back returns the same
/// entries in the same order; a limit below their number returns the most
/// recent ones up to the limit. This holds for every record format in
/// which decoding undoes encoding and a record fits on one line.
pub proof fn lemma_scrollback_round_trip<T>(
    entries: Seq<T>,
    encode: spec_fn(T) -> Seq<char>,
    decode: spec_fn(Seq<char>) -> Option<T>,
    limit: Option<usize>,
)
    requires
        forall|e: T| #[trigger] decode(encode(e)) == Some(e),
        forall|e: T| fits_one_line(#[trigger] encode(e)),
    ensures
        ({
            let read = latest(
                decoded(log_records(log_text(entries.map_values(encode))), decode),
                limit,
            );
            &&& limit is None ==> read == entries
            &&& limit is Some && limit->0 < entries.len() ==> read == entries.subrange(
                entries.len() - limit->0,
                entries.len() as int,
            )
            &&& limit is Some && limit->0 >= entries.len() ==> read == entries
        }),
{
    let records = entries.map_values(encode);
    assert forall|j: int| 0 <= j < records.len() implies fits_one_line(#[trigger] records[j]) by {
        assert(records[j] == encode(entries[j]));
    }
    lemma_lines_of_log(records);
    lemma_decode_encoded(entries, encode, decode);
}

} // verus!
