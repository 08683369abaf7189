//! Authored key-value documents: one `key: value` pair per line.

use crate::error::{fails_with, ErrorView, KituError};
use crate::text::{
    find_char, first_of, lemma_lines_unfold, line_window, lines, string_from, to_chars, trim,
    trim_window,
};
use vstd::hash_map::StringHashMap;
use vstd::prelude::*;

verus! {

/// One entry of a document.
#[derive(Debug, Clone, PartialEq, Eq)]
pub struct TmdEntry {
    /// What stands before the colon.
    pub key: String,
    /// What stands behind the colon.
    pub value: String,
}

/// What one line of a document says.
pub enum EntryLine {
    /// A blank line, or a comment: a line whose first character is `#`.
    Skipped,
    /// A key and its value.
    Pair(Seq<char>, Seq<char>),
    /// A line without a colon.
    Malformed,
}

/// Reads one line of a document. The key is what stands before the first
/// colon and the value what stands behind it, both without the whitespace
/// around them.
pub open spec fn read_entry(line: Seq<char>) -> EntryLine {
    let text = trim(line);
    if text.len() == 0 || text[0] == '#' {
        EntryLine::Skipped
    } else {
        let colon = first_of(text, ':');
        if colon >= text.len() {
            EntryLine::Malformed
        } else {
            EntryLine::Pair(trim(text.take(colon)), trim(text.skip(colon + 1)))
        }
    }
}

/// Reads lines in order into `entries`; a later pair replaces an earlier one
/// with the same key. `None` if any line is malformed.
pub open spec fn read_entries(entries: Map<Seq<char>, Seq<char>>, lines: Seq<Seq<char>>) -> Option<
    Map<Seq<char>, Seq<char>>,
>
    decreases lines.len(),
{
    if lines.len() == 0 {
        Some(entries)
    } else {
        match read_entry(lines[0]) {
            EntryLine::Malformed => None,
            EntryLine::Skipped => read_entries(entries, lines.skip(1)),
            EntryLine::Pair(key, value) => read_entries(entries.insert(key, value), lines.skip(1)),
        }
    }
}

/// The entries that a document holds, or `None` if one of its lines is malformed.
pub open spec fn parse_document(input: Seq<char>) -> Option<Map<Seq<char>, Seq<char>>> {
    read_entries(Map::empty(), lines(input))
}

/// The failure reported for a line without a colon.
pub open spec fn expected_pair() -> ErrorView {
    ErrorView::InvalidInput("expected key: value"@)
}

/// Reading a line and then the rest is reading all of it.
proof fn lemma_read_entries_step(
    entries: Map<Seq<char>, Seq<char>>,
    line: Seq<char>,
    rest: Seq<Seq<char>>,
)
    ensures
        read_entries(entries, seq![line] + rest) == match read_entry(line) {
            EntryLine::Malformed => None,
            EntryLine::Skipped => read_entries(entries, rest),
            EntryLine::Pair(key, value) => read_entries(entries.insert(key, value), rest),
        },
{
    let all = seq![line] + rest;
    assert(all[0] == line);
    assert(all.skip(1) =~= rest);
}

/// A parsed document: its entries by key.
pub struct TmdDocument {
    entries: StringHashMap<String>,
}

impl View for TmdDocument {
    type V = Map<Seq<char>, Seq<char>>;

    closed spec fn view(&self) -> Map<Seq<char>, Seq<char>> {
        self.entries@.map_values(|value: String| value@)
    }
}

impl Default for TmdDocument {
    /// The document without entries.
    fn default() -> (document: TmdDocument)
        ensures
            document@ == Map::<Seq<char>, Seq<char>>::empty(),
    {
        let document = TmdDocument { entries: StringHashMap::new() };
        assert(document@ =~= Map::<Seq<char>, Seq<char>>::empty());
        document
    }
}

impl TmdDocument {
    /// Parses a document. Blank lines and lines that start with `#` are
    /// skipped; every other line must hold a colon. One line without a colon
    /// fails the whole document.
    pub fn parse(input: &str) -> (outcome: Result<TmdDocument, KituError>)
        ensures
            match parse_document(input@) {
                Some(entries) => outcome matches Ok(document) && document@ == entries,
                None => fails_with(outcome, expected_pair()),
            },
    {
        let chars = to_chars(input);
        let mut entries: StringHashMap<String> = StringHashMap::new();
        let mut pos: usize = 0;
        assert(chars@.skip(0) =~= chars@);
        assert(entries@.map_values(|value: String| value@) =~= Map::<
            Seq<char>,
            Seq<char>,
        >::empty());
        while pos < chars.len()
            invariant
                pos <= chars@.len(),
                chars@ == input@,
                parse_document(input@) == read_entries(
                    entries@.map_values(|value: String| value@),
                    lines(chars@.skip(pos as int)),
                ),
            decreases chars@.len() - pos,
        {
            let ghost seen = entries@.map_values(|value: String| value@);
            let (end, next) = line_window(&chars, pos);
            let ghost line = chars@.subrange(pos as int, end as int);
            proof {
                lemma_lines_unfold(chars@, pos as int);
                lemma_read_entries_step(seen, line, lines(chars@.skip(next as int)));
            }
            let (a, b) = trim_window(&chars, pos, end);
            let ghost text = chars@.subrange(a as int, b as int);
            if a == b || chars[a] == '#' {
            } else {
                let colon = find_char(&chars, a, b, ':');
                if colon == b {
                    return Err(KituError::InvalidInput("expected key: value"));
                }
                assert(text.take(colon - a) =~= chars@.subrange(a as int, colon as int));
                assert(text.skip(colon - a + 1) =~= chars@.subrange(colon + 1, b as int));
                let (ka, kb) = trim_window(&chars, a, colon);
                let (va, vb) = trim_window(&chars, colon + 1, b);
                let key = string_from(&chars, ka, kb);
                let value = string_from(&chars, va, vb);
                let ghost key_view = key@;
                entries.insert(key, value);
                assert(entries@.map_values(|value: String| value@) =~= seen.insert(
                    key_view,
                    value@,
                ));
            }
            pos = next;
        }
        assert(lines(chars@.skip(pos as int)) =~= Seq::<Seq<char>>::empty());
        Ok(TmdDocument { entries })
    }

    /// The entry with the key `key`, if the document has one.
    pub fn get(&self, key: &str) -> (entry: Option<TmdEntry>)
        ensures
            self@.contains_key(key@) ==> (entry matches Some(e) && e.key@ == key@ && e.value@
                == self@[key@]),
            !self@.contains_key(key@) ==> entry is None,
    {
        match self.entries.get(key) {
            Some(value) => Some(TmdEntry { key: key.to_owned(), value: value.clone() }),
            None => None,
        }
    }

    /// The number of entries.
    pub fn len(&self) -> (n: usize)
        ensures
            n == self@.len(),
    {
        assert(self@.dom() =~= self.entries@.dom());
        self.entries.len()
    }

    /// Whether the document has no entries.
    pub fn is_empty(&self) -> (empty: bool)
        ensures
            empty == (self@.len() == 0),
    {
        assert(self@.dom() =~= self.entries@.dom());
        self.entries.len() == 0
    }
}

} // verus!
