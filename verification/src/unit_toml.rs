//! From a systemd unit file to TOML.
//!
//! A unit file is read line by line. `[Name]` opens a table; `Key=Value` adds
//! `Value` to the array `Key` of the table that is open. In the TOML text every
//! key is an array of strings. Tables and keys come out in the order in which
//! they first appeared.

use crate::text::{
    chars_of, find_char, lemma_position, position, string_from_range,
    strip, strip_bounds, trim, CharClass,
};
use vstd::prelude::*;
use vstd::string::StringExecFns;

verus! {

/// A key with the values it was given, first to last.
#[derive(Debug)]
pub struct Entry {
    pub key: String,
    pub values: Vec<String>,
}

/// A table: its name and its keys, in order of first appearance.
#[derive(Debug)]
pub struct Table {
    pub name: String,
    pub entries: Vec<Entry>,
}

/// What has been read of a unit file so far.
#[derive(Debug)]
pub struct Document {
    tables: Vec<Table>,
    current: Option<usize>,
}

pub ghost struct EntryView {
    pub key: Seq<char>,
    pub values: Seq<Seq<char>>,
}

pub ghost struct TableView {
    pub name: Seq<char>,
    pub entries: Seq<EntryView>,
}

pub ghost struct DocumentView {
    /// The tables, in order of first appearance; no two share a name.
    pub tables: Seq<TableView>,
    /// The place of the table that is open, if any.
    pub current: Option<int>,
}

pub open spec fn string_views(strings: Seq<String>) -> Seq<Seq<char>> {
    Seq::new(strings.len(), |i: int| strings[i]@)
}

pub open spec fn entry_views(entries: Seq<Entry>) -> Seq<EntryView> {
    Seq::new(entries.len(), |i: int| entries[i]@)
}

pub open spec fn table_views(tables: Seq<Table>) -> Seq<TableView> {
    Seq::new(tables.len(), |i: int| tables[i]@)
}

impl View for Entry {
    type V = EntryView;

    open spec fn view(&self) -> EntryView {
        EntryView { key: self.key@, values: string_views(self.values@) }
    }
}

impl View for Table {
    type V = TableView;

    open spec fn view(&self) -> TableView {
        TableView { name: self.name@, entries: entry_views(self.entries@) }
    }
}

impl View for Document {
    type V = DocumentView;

    closed spec fn view(&self) -> DocumentView {
        DocumentView {
            tables: table_views(self.tables@),
            current: match self.current {
                Some(i) => Some(i as int),
                None => None,
            },
        }
    }
}

/// The keys of a table, in order.
pub open spec fn keys(entries: Seq<EntryView>) -> Seq<Seq<char>> {
    Seq::new(entries.len(), |i: int| entries[i].key)
}

/// The names of the tables, in order.
pub open spec fn names(tables: Seq<TableView>) -> Seq<Seq<char>> {
    Seq::new(tables.len(), |i: int| tables[i].name)
}

/// The lines of a text: what stands between its line feeds. A text that ends
/// in a line feed has no empty last line. A carriage return before a line feed
/// stays in the line; trimming removes it.
pub open spec fn lines(text: Seq<char>) -> Seq<Seq<char>>
    decreases text.len(),
{
    if text.len() == 0 {
        Seq::empty()
    } else {
        let k = position(text, '\n');
        if 0 <= k < text.len() {
            seq![text.take(k)] + lines(text.skip(k + 1))
        } else {
            seq![text]
        }
    }
}

/// The entries of a table after `value` was given to `key`: added to the
/// values of the key if the table has it, under a new last key otherwise.
pub open spec fn with_value(entries: Seq<EntryView>, key: Seq<char>, value: Seq<char>) -> Seq<
    EntryView,
> {
    let j = position(keys(entries), key);
    if 0 <= j < entries.len() {
        entries.update(j, EntryView { key, values: entries[j].values.push(value) })
    } else {
        entries.push(EntryView { key, values: seq![value] })
    }
}

impl DocumentView {
    /// Nothing read yet: no table, none open.
    pub open spec fn empty() -> DocumentView {
        DocumentView { tables: Seq::empty(), current: None }
    }

    /// The open table, if any, is one of the tables.
    pub open spec fn wf(self) -> bool {
        self.current matches Some(i) ==> 0 <= i < self.tables.len()
    }

    /// After the header of the table `name`: the table is open and empty. A
    /// table of that name that was there before keeps its place and loses its
    /// entries; a new one comes last.
    pub open spec fn open_table(self, name: Seq<char>) -> DocumentView {
        let i = position(names(self.tables), name);
        let fresh = TableView { name, entries: Seq::empty() };
        if 0 <= i < self.tables.len() {
            DocumentView { tables: self.tables.update(i, fresh), current: Some(i) }
        } else {
            DocumentView {
                tables: self.tables.push(fresh),
                current: Some(self.tables.len() as int),
            }
        }
    }

    /// After `key = value` in the open table. Without an open table nothing
    /// changes.
    pub open spec fn add_value(self, key: Seq<char>, value: Seq<char>) -> DocumentView {
        match self.current {
            Some(i) => DocumentView {
                tables: self.tables.update(
                    i,
                    TableView {
                        name: self.tables[i].name,
                        entries: with_value(self.tables[i].entries, key, value),
                    },
                ),
                current: self.current,
            },
            None => self,
        }
    }

    /// After one more line. The line is trimmed first. An empty line changes
    /// nothing. A line that starts with `[` opens the table named by the line
    /// without the brackets at its ends. Any other line counts only under an
    /// open table and only if it holds `=`: what stands before the first `=` is
    /// the key, what stands after it the value, both trimmed.
    pub open spec fn read_line(self, raw: Seq<char>) -> DocumentView {
        let line = trim(raw);
        let k = position(line, '=');
        if line.len() == 0 {
            self
        } else if line.first() == '[' {
            self.open_table(strip(line, CharClass::Bracket))
        } else if self.current is Some && 0 <= k < line.len() {
            self.add_value(trim(line.take(k)), trim(line.skip(k + 1)))
        } else {
            self
        }
    }

    /// After all the lines, first to last.
    pub open spec fn read_lines(all: Seq<Seq<char>>) -> DocumentView
        decreases all.len(),
    {
        if all.len() == 0 {
            DocumentView::empty()
        } else {
            DocumentView::read_lines(all.drop_last()).read_line(all.last())
        }
    }
}

/// A value between double quotes, as it stands.
pub open spec fn quoted(value: Seq<char>) -> Seq<char> {
    seq!['"'] + value + seq!['"']
}

/// The values of one key, quoted and separated by a comma and a space.
pub open spec fn quoted_list(values: Seq<Seq<char>>) -> Seq<char>
    decreases values.len(),
{
    if values.len() == 0 {
        Seq::empty()
    } else if values.len() == 1 {
        quoted(values.last())
    } else {
        quoted_list(values.drop_last()) + seq![',', ' '] + quoted(values.last())
    }
}

/// One key as a line of TOML: `key = ["v1", "v2"]`.
pub open spec fn entry_text(entry: EntryView) -> Seq<char> {
    entry.key + seq![' ', '=', ' ', '['] + quoted_list(entry.values) + seq![']', '\n']
}

/// The lines of all keys of a table.
pub open spec fn entries_text(entries: Seq<EntryView>) -> Seq<char>
    decreases entries.len(),
{
    if entries.len() == 0 {
        Seq::empty()
    } else {
        entries_text(entries.drop_last()) + entry_text(entries.last())
    }
}

/// One table as TOML: its header, its keys, and an empty line.
pub open spec fn table_text(table: TableView) -> Seq<char> {
    seq!['['] + table.name + seq![']', '\n'] + entries_text(table.entries) + seq!['\n']
}

/// All tables as TOML, one after the other.
pub open spec fn tables_text(tables: Seq<TableView>) -> Seq<char>
    decreases tables.len(),
{
    if tables.len() == 0 {
        Seq::empty()
    } else {
        tables_text(tables.drop_last()) + table_text(tables.last())
    }
}

/// The TOML text of a unit file.
pub open spec fn toml_of(systemd: Seq<char>) -> Seq<char> {
    tables_text(DocumentView::read_lines(lines(systemd)).tables)
}

impl Document {
    /// The open table, if any, is one of the tables.
    pub closed spec fn wf(&self) -> bool {
        self.current matches Some(i) ==> i < self.tables@.len()
    }

    /// A document with nothing read.
    pub fn new() -> (doc: Document)
        ensures
            doc.wf(),
            doc@ == DocumentView::empty(),
    {
        let doc = Document { tables: Vec::new(), current: None };
        assert(doc@.tables =~= Seq::<TableView>::empty());
        doc
    }

    /// The tables read so far, in order of first appearance.
    pub fn tables(&self) -> (tables: &Vec<Table>)
        ensures
            table_views(tables@) == self@.tables,
    {
        &self.tables
    }

    /// Reads the header of the table `name`.
    pub fn open_table(&mut self, name: String)
        requires
            old(self).wf(),
        ensures
            final(self).wf(),
            final(self)@ == old(self)@.open_table(name@),
    {
        let n: usize = self.tables.len();
        let mut i: usize = 0;
        while i < n && self.tables[i].name != name
            invariant
                i <= n,
                n == self.tables@.len(),
                *self == *old(self),
                forall|j: int| 0 <= j < i ==> self.tables@[j].name@ != name@,
            decreases n - i,
        {
            i = i + 1;
        }
        proof {
            let all = names(old(self)@.tables);
            assert forall|j: int| 0 <= j < i implies all[j] != name@ by {}
            lemma_position(all, name@, i as int);
        }
        let ghost fresh = TableView { name: name@, entries: Seq::empty() };
        let table = Table { name, entries: Vec::new() };
        assert(table@.entries =~= Seq::<EntryView>::empty());
        if i < n {
            self.tables.set(i, table);
            assert(table_views(self.tables@) =~= old(self)@.tables.update(i as int, fresh));
        } else {
            self.tables.push(table);
            assert(table_views(self.tables@) =~= old(self)@.tables.push(fresh));
        }
        self.current = Some(i);
    }

    /// Reads `key = value` under the open table.
    pub fn add_value(&mut self, key: String, value: String)
        requires
            old(self).wf(),
        ensures
            final(self).wf(),
            final(self)@ == old(self)@.add_value(key@, value@),
    {
        match self.current {
            None => {},
            Some(i) => {
                let ghost before = self.tables@[i as int]@;
                let table = &mut self.tables[i];
                add_to_entries(&mut table.entries, key, value);
                proof {
                    let after = TableView {
                        name: before.name,
                        entries: with_value(before.entries, key@, value@),
                    };
                    assert(table_views(self.tables@) =~= old(self)@.tables.update(i as int, after));
                }
            },
        }
    }

    /// Reads the line at the places `from..to` of `chars`.
    pub fn read_line(&mut self, chars: &Vec<char>, from: usize, to: usize)
        requires
            old(self).wf(),
            from <= to <= chars@.len(),
        ensures
            final(self).wf(),
            final(self)@ == old(self)@.read_line(chars@.subrange(from as int, to as int)),
    {
        let (a, b) = strip_bounds(chars, from, to, CharClass::Whitespace);
        let ghost line = chars@.subrange(a as int, b as int);
        if a == b {
            return ;
        }
        if chars[a] == '[' {
            let (c, d) = strip_bounds(chars, a, b, CharClass::Bracket);
            self.open_table(string_from_range(chars, c, d));
            return ;
        }
        if self.current.is_none() {
            return ;
        }
        let k: usize = find_char(chars, a, b, '=');
        if k == b {
            return ;
        }
        let (key_from, key_to) = strip_bounds(chars, a, k, CharClass::Whitespace);
        let (value_from, value_to) = strip_bounds(chars, k + 1, b, CharClass::Whitespace);
        proof {
            assert(line.take(k - a) =~= chars@.subrange(a as int, k as int));
            assert(line.skip(k - a + 1) =~= chars@.subrange(k + 1, b as int));
        }
        self.add_value(
            string_from_range(chars, key_from, key_to),
            string_from_range(chars, value_from, value_to),
        );
    }

    /// Reads a whole unit file.
    pub fn parse(systemd: &str) -> (doc: Document)
        ensures
            doc.wf(),
            doc@ == DocumentView::read_lines(lines(systemd@)),
    {
        let chars: Vec<char> = chars_of(systemd);
        let n: usize = chars.len();
        let mut doc = Document::new();
        let mut at: usize = 0;
        let ghost mut done: Seq<Seq<char>> = Seq::empty();
        assert(chars@.skip(0) =~= chars@);
        while at < n
            invariant
                at <= n,
                n == chars@.len(),
                doc.wf(),
                doc@ == DocumentView::read_lines(done),
                lines(chars@) == done + lines(chars@.skip(at as int)),
            decreases n - at,
        {
            let end: usize = find_char(&chars, at, n, '\n');
            doc.read_line(&chars, at, end);
            let next: usize = if end < n {
                end + 1
            } else {
                n
            };
            proof {
                let rest = chars@.skip(at as int);
                let line = chars@.subrange(at as int, end as int);
                assert(rest =~= chars@.subrange(at as int, n as int));
                assert(rest.take(end - at) =~= line);
                if end < n {
                    assert(rest.skip(end - at + 1) =~= chars@.skip(next as int));
                } else {
                    assert(rest =~= line);
                    assert(lines(chars@.skip(next as int)) =~= Seq::<Seq<char>>::empty());
                }
                assert(lines(rest) =~= seq![line] + lines(chars@.skip(next as int)));
                assert(done.push(line).drop_last() =~= done);
                assert(done + lines(rest) =~= done.push(line) + lines(chars@.skip(next as int)));
                done = done.push(line);
            }
            at = next;
        }
        assert(done + Seq::<Seq<char>>::empty() =~= done);
        doc
    }

    /// The document as TOML.
    pub fn render(&self) -> (toml: String)
        ensures
            toml@ == tables_text(self@.tables),
    {
        let mut toml = String::new();
        let n: usize = self.tables.len();
        let mut i: usize = 0;
        while i < n
            invariant
                i <= n,
                n == self.tables@.len(),
                toml@ == tables_text(self@.tables.take(i as int)),
            decreases n - i,
        {
            proof {
                let next = self@.tables.take(i + 1);
                assert(next.drop_last() =~= self@.tables.take(i as int));
                assert(next.last() == self.tables@[i as int]@);
            }
            push_table(&mut toml, &self.tables[i]);
            i = i + 1;
        }
        assert(self@.tables.take(n as int) =~= self@.tables);
        toml
    }
}

/// Gives `value` to `key` among `entries`.
fn add_to_entries(entries: &mut Vec<Entry>, key: String, value: String)
    ensures
        entry_views(final(entries)@) == with_value(entry_views(old(entries)@), key@, value@),
{
    let n: usize = entries.len();
    let mut j: usize = 0;
    while j < n && entries[j].key != key
        invariant
            j <= n,
            n == entries@.len(),
            *entries == *old(entries),
            forall|m: int| 0 <= m < j ==> entries@[m].key@ != key@,
        decreases n - j,
    {
        j = j + 1;
    }
    proof {
        let all = keys(entry_views(old(entries)@));
        assert forall|m: int| 0 <= m < j implies all[m] != key@ by {}
        lemma_position(all, key@, j as int);
    }
    if j < n {
        let ghost before = entries@[j as int]@;
        let entry = &mut entries[j];
        entry.values.push(value);
        proof {
            let after = EntryView { key: key@, values: before.values.push(value@) };
            assert(entries@[j as int]@.values =~= after.values);
            assert(entry_views(entries@) =~= entry_views(old(entries)@).update(j as int, after));
        }
    } else {
        let mut values: Vec<String> = Vec::new();
        values.push(value);
        let entry = Entry { key, values };
        assert(entry@.values =~= seq![value@]);
        entries.push(entry);
        assert(entry_views(entries@) =~= entry_views(old(entries)@).push(entry@));
    }
}

/// Appends `value` between double quotes.
fn push_quoted(out: &mut String, value: &String)
    ensures
        final(out)@ == old(out)@ + quoted(value@),
{
    out.push('"');
    out.append(value.as_str());
    out.push('"');
    assert(out@ =~= old(out)@ + quoted(value@));
}

/// Appends one key as a line of TOML.
fn push_entry(out: &mut String, entry: &Entry)
    ensures
        final(out)@ == old(out)@ + entry_text(entry@),
{
    out.append(entry.key.as_str());
    out.push(' ');
    out.push('=');
    out.push(' ');
    out.push('[');
    let ghost head = out@;
    let n: usize = entry.values.len();
    let mut i: usize = 0;
    while i < n
        invariant
            i <= n,
            n == entry.values@.len(),
            out@ == head + quoted_list(entry@.values.take(i as int)),
        decreases n - i,
    {
        proof {
            let next = entry@.values.take(i + 1);
            assert(next.drop_last() =~= entry@.values.take(i as int));
            assert(next.last() == entry.values@[i as int]@);
        }
        if i > 0 {
            out.push(',');
            out.push(' ');
        }
        push_quoted(out, &entry.values[i]);
        assert(out@ =~= head + quoted_list(entry@.values.take(i + 1)));
        i = i + 1;
    }
    assert(entry@.values.take(n as int) =~= entry@.values);
    out.push(']');
    out.push('\n');
    assert(out@ =~= old(out)@ + entry_text(entry@));
}

/// Appends one table as TOML.
fn push_table(out: &mut String, table: &Table)
    ensures
        final(out)@ == old(out)@ + table_text(table@),
{
    out.push('[');
    out.append(table.name.as_str());
    out.push(']');
    out.push('\n');
    let ghost head = out@;
    let n: usize = table.entries.len();
    let mut i: usize = 0;
    while i < n
        invariant
            i <= n,
            n == table.entries@.len(),
            out@ == head + entries_text(table@.entries.take(i as int)),
        decreases n - i,
    {
        proof {
            let next = table@.entries.take(i + 1);
            assert(next.drop_last() =~= table@.entries.take(i as int));
            assert(next.last() == table.entries@[i as int]@);
        }
        push_entry(out, &table.entries[i]);
        assert(out@ =~= head + entries_text(table@.entries.take(i + 1)));
        i = i + 1;
    }
    assert(table@.entries.take(n as int) =~= table@.entries);
    out.push('\n');
    assert(out@ =~= old(out)@ + table_text(table@));
}

/// Converts the text of a systemd unit file to TOML: one table for each
/// section, in order of first appearance, and in it one array of strings for
/// each key.
pub fn convert_systemd_to_toml(systemd: &str) -> (toml: String)
    ensures
        toml@ == toml_of(systemd@),
{
    Document::parse(systemd).render()
}

/// The unit file of an OpenSSH server, as a sample to convert.
pub const SAMPLE_UNIT: &'static str = "\n\
[Unit]\n\
Description=OpenBSD Secure Shell server\n\
Documentation=man:sshd(8) man:sshd_config(5)\n\
After=network.target auditd.service\n\
ConditionPathExists=!/etc/ssh/sshd_not_to_be_run\n\
\n\
[Service]\n\
EnvironmentFile=-/etc/default/ssh\n\
ExecStartPre=/usr/sbin/sshd -t\n\
ExecStart=/usr/sbin/sshd -D $SSHD_OPTS\n\
ExecReload=/usr/sbin/sshd -t\n\
ExecReload=/bin/kill -HUP $MAINPID\n\
KillMode=process\n\
Restart=on-failure\n\
RestartPreventExitStatus=255\n\
Type=notify\n\
RuntimeDirectory=sshd\n\
RuntimeDirectoryMode=0755\n\
\n\
[Install]\n\
WantedBy=multi-user.target\n\
Alias=sshd.service\n";

/// The sample unit file as an owned string.
pub fn systemd_test_string() -> (text: String)
    ensures
        text@ == SAMPLE_UNIT@,
{
    SAMPLE_UNIT.to_owned()
}

} // verus!
