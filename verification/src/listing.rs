//! Directory listings: which entries are shown, and in what order.
//!
//! Reading the directory is the caller's part. It hands over what it found, as
//! names and paths; the listing is decided here.

use crate::text::{byte_len, chars_of, push_range, text_cells};
use vstd::string::StringExecFns;
use vstd::prelude::*;

verus! {

/// A file as found in a directory.
#[derive(Clone, Debug)]
pub struct FoundFile {
    pub file_name: String,
    pub path: String,
}

/// One line of a listing.
#[derive(Clone, Debug, PartialEq, Eq, PartialOrd, Ord)]
pub struct DirectoryEntry {
    pub file_name: String,
    pub long_format: String,
    pub path: String,
    pub permissions: String,
    pub formatted_time: String,
    pub size: u64,
    pub size_string: String,
}

pub ghost struct FoundView {
    pub file_name: Seq<char>,
    pub path: Seq<char>,
}

pub ghost struct EntryView {
    pub file_name: Seq<char>,
    pub long_format: Seq<char>,
    pub path: Seq<char>,
    pub permissions: Seq<char>,
    pub formatted_time: Seq<char>,
    pub size: u64,
    pub size_string: Seq<char>,
}

impl View for FoundFile {
    type V = FoundView;

    open spec fn view(&self) -> FoundView {
        FoundView { file_name: self.file_name@, path: self.path@ }
    }
}

impl View for DirectoryEntry {
    type V = EntryView;

    open spec fn view(&self) -> EntryView {
        EntryView {
            file_name: self.file_name@,
            long_format: self.long_format@,
            path: self.path@,
            permissions: self.permissions@,
            formatted_time: self.formatted_time@,
            size: self.size,
            size_string: self.size_string@,
        }
    }
}

pub open spec fn found_views(found: Seq<FoundFile>) -> Seq<FoundView> {
    Seq::new(found.len(), |i: int| found[i]@)
}

pub open spec fn entry_views(entries: Seq<DirectoryEntry>) -> Seq<EntryView> {
    Seq::new(entries.len(), |i: int| entries[i]@)
}

/// A name that starts with a dot.
pub open spec fn is_hidden(name: Seq<char>) -> bool {
    name.len() > 0 && name.first() == '.'
}

/// The files a listing shows: all of them, or those that are not hidden.
pub open spec fn shown(show_hidden: bool) -> spec_fn(FoundView) -> bool {
    |f: FoundView| show_hidden || !is_hidden(f.file_name)
}

/// `a` comes strictly before `b` in the order of strings: character by
/// character, a proper prefix first.
pub open spec fn comes_before(a: Seq<char>, b: Seq<char>) -> bool
    decreases a.len(),
{
    if b.len() == 0 {
        false
    } else if a.len() == 0 {
        true
    } else if a.first() != b.first() {
        a.first() < b.first()
    } else {
        comes_before(a.drop_first(), b.drop_first())
    }
}

/// No file stands after one whose name comes after its own.
pub open spec fn is_sorted(files: Seq<FoundView>) -> bool {
    forall|i: int, j: int|
        0 <= i < j < files.len() ==> !comes_before(
            (#[trigger] files[j]).file_name,
            (#[trigger] files[i]).file_name,
        )
}

/// Where a file of the given name goes into a sorted listing: before the
/// first file whose name comes after it, and so after every file of the same
/// name.
pub open spec fn insertion_point(sorted: Seq<FoundView>, name: Seq<char>) -> int
    decreases sorted.len(),
{
    if sorted.len() == 0 || comes_before(name, sorted.first().file_name) {
        0
    } else {
        1 + insertion_point(sorted.drop_first(), name)
    }
}

/// The files in the order of their names; files of the same name keep the
/// order they were found in.
pub open spec fn sorted_by_name(files: Seq<FoundView>) -> Seq<FoundView>
    decreases files.len(),
{
    if files.len() == 0 {
        files
    } else {
        let sorted = sorted_by_name(files.drop_last());
        sorted.insert(insertion_point(sorted, files.last().file_name), files.last())
    }
}

/// What a listing holds: the files shown, sorted by name.
pub open spec fn listing(found: Seq<FoundView>, show_hidden: bool) -> Seq<FoundView> {
    sorted_by_name(found.filter(shown(show_hidden)))
}

/// The entry a file starts with: its name and path, and nothing else yet.
pub open spec fn blank_entry(file: FoundView) -> EntryView {
    EntryView {
        file_name: file.file_name,
        long_format: Seq::empty(),
        path: file.path,
        permissions: Seq::empty(),
        formatted_time: Seq::empty(),
        size: 0,
        size_string: Seq::empty(),
    }
}

pub open spec fn blank_entries(files: Seq<FoundView>) -> Seq<EntryView> {
    Seq::new(files.len(), |i: int| blank_entry(files[i]))
}

/// Whether `a` comes strictly before `b`.
pub fn comes_before_exec(a: &Vec<char>, b: &Vec<char>) -> (before: bool)
    ensures
        before == comes_before(a@, b@),
{
    let mut i: usize = 0;
    assert(a@.skip(0) =~= a@ && b@.skip(0) =~= b@);
    while i < a.len() && i < b.len() && a[i] == b[i]
        invariant
            i <= a@.len(),
            i <= b@.len(),
            comes_before(a@, b@) == comes_before(a@.skip(i as int), b@.skip(i as int)),
        decreases a@.len() - i,
    {
        assert(a@.skip(i as int).drop_first() =~= a@.skip(i + 1));
        assert(b@.skip(i as int).drop_first() =~= b@.skip(i + 1));
        i = i + 1;
    }
    if i == b.len() {
        false
    } else if i == a.len() {
        true
    } else {
        a[i] < b[i]
    }
}

/// The entries of a directory listing: the files found, without the hidden
/// ones unless `show_hidden` is set, sorted by name. Every entry holds its
/// name and path; the other fields are empty.
pub fn list_directory(found: &Vec<FoundFile>, show_hidden: bool) -> (entries: Vec<DirectoryEntry>)
    ensures
        entry_views(entries@) == blank_entries(listing(found_views(found@), show_hidden)),
{
    let mut entries: Vec<DirectoryEntry> = Vec::new();
    let mut names: Vec<Vec<char>> = Vec::new();
    let ghost mut model: Seq<FoundView> = Seq::empty();
    let ghost all = found_views(found@);
    let n: usize = found.len();
    let mut i: usize = 0;
    proof {
        reveal(Seq::filter);
        assert(all.take(0).filter(shown(show_hidden)) =~= Seq::<FoundView>::empty());
    }
    while i < n
        invariant
            i <= n,
            n == found@.len(),
            all == found_views(found@),
            model == listing(all.take(i as int), show_hidden),
            entry_views(entries@) =~= blank_entries(model),
            entries@.len() == model.len(),
            names@.len() == model.len(),
            forall|k: int| 0 <= k < model.len() ==> (#[trigger] names@[k])@ == model[k].file_name,
        decreases n - i,
    {
        let file = &found[i];
        let name: Vec<char> = chars_of(file.file_name.as_str());
        proof {
            let seen = all.take(i as int);
            assert(all.take(i + 1) =~= seen.push(file@));
            seen.lemma_filter_push(file@, shown(show_hidden));
            assert(seen.filter(shown(show_hidden)).push(file@).drop_last() =~= seen.filter(
                shown(show_hidden),
            ));
        }
        if show_hidden || !(name.len() > 0 && name[0] == '.') {
            let at: usize = find_place(&names, &name, Ghost(model));
            let entry = DirectoryEntry {
                file_name: file.file_name.clone(),
                long_format: String::new(),
                path: file.path.clone(),
                permissions: String::new(),
                formatted_time: String::new(),
                size: 0,
                size_string: String::new(),
            };
            assert(entry@ == blank_entry(file@));
            let ghost listed = entries@;
            let ghost keys = names@;
            entries.insert(at, entry);
            names.insert(at, name);
            proof {
                let grown = model.insert(at as int, file@);
                model.insert_ensures(at as int, file@);
                listed.insert_ensures(at as int, entry);
                keys.insert_ensures(at as int, name);
                assert forall|k: int| 0 <= k < grown.len() implies entry_views(entries@)[k]
                    == blank_entries(grown)[k] by {
                    if k < at {
                        assert(entries@[k] == listed[k]);
                        assert(entry_views(listed)[k] == blank_entries(model)[k]);
                    } else if k > at {
                        assert(entries@[k] == listed[k - 1]);
                        assert(entry_views(listed)[k - 1] == blank_entries(model)[k - 1]);
                    }
                }
                assert(entry_views(entries@) =~= blank_entries(grown));
                model = grown;
            }
        }
        i = i + 1;
    }
    proof {
        assert(all.take(n as int) =~= all);
    }
    entries
}

/// The place where `name` goes into the sorted `names`.
fn find_place(names: &Vec<Vec<char>>, name: &Vec<char>, Ghost(model): Ghost<Seq<FoundView>>) -> (at:
    usize)
    requires
        names@.len() == model.len(),
        forall|k: int| 0 <= k < model.len() ==> (#[trigger] names@[k])@ == model[k].file_name,
    ensures
        at <= names@.len(),
        at == insertion_point(model, name@),
{
    let n: usize = names.len();
    let mut at: usize = 0;
    assert(model.skip(0) =~= model);
    while at < n && !comes_before_exec(name, &names[at])
        invariant
            at <= n,
            n == names@.len(),
            names@.len() == model.len(),
            forall|k: int| 0 <= k < model.len() ==> (#[trigger] names@[k])@ == model[k].file_name,
            insertion_point(model, name@) == at + insertion_point(model.skip(at as int), name@),
        decreases n - at,
    {
        assert(model.skip(at as int).drop_first() =~= model.skip(at + 1));
        at = at + 1;
    }
    at
}

/// No name comes before itself.
pub proof fn lemma_comes_before_irreflexive(a: Seq<char>)
    ensures
        !comes_before(a, a),
    decreases a.len(),
{
    if a.len() > 0 {
        lemma_comes_before_irreflexive(a.drop_first());
    }
}

/// The order of names is transitive.
pub proof fn lemma_comes_before_transitive(a: Seq<char>, b: Seq<char>, c: Seq<char>)
    requires
        comes_before(a, b),
        comes_before(b, c),
    ensures
        comes_before(a, c),
    decreases a.len(),
{
    if a.len() > 0 && a.first() == b.first() && b.first() == c.first() {
        lemma_comes_before_transitive(a.drop_first(), b.drop_first(), c.drop_first());
    }
}

/// Of two different names one comes before the other.
pub proof fn lemma_comes_before_total(a: Seq<char>, b: Seq<char>)
    ensures
        comes_before(a, b) || comes_before(b, a) || a == b,
    decreases a.len(),
{
    if a.len() > 0 && b.len() > 0 && a.first() == b.first() {
        lemma_comes_before_total(a.drop_first(), b.drop_first());
        if a.drop_first() == b.drop_first() {
            assert(a =~= seq![a.first()] + a.drop_first());
            assert(b =~= seq![b.first()] + b.drop_first());
        }
    } else if a.len() == 0 && b.len() == 0 {
        assert(a =~= b);
    }
}

/// A name that does not come before `b` does not come before any `c` that
/// comes before `b`.
proof fn lemma_not_before(a: Seq<char>, b: Seq<char>, c: Seq<char>)
    requires
        !comes_before(a, b),
        comes_before(c, b),
    ensures
        !comes_before(a, c),
{
    if comes_before(a, c) {
        lemma_comes_before_transitive(a, c, b);
    }
}

/// The insertion point lies within the listing or at its end; no file before
/// it has a name that comes after `name`, and the file at it has one.
pub proof fn lemma_insertion_point(sorted: Seq<FoundView>, name: Seq<char>)
    ensures
        0 <= insertion_point(sorted, name) <= sorted.len(),
        forall|k: int|
            0 <= k < insertion_point(sorted, name) ==> !comes_before(
                name,
                (#[trigger] sorted[k]).file_name,
            ),
        insertion_point(sorted, name) < sorted.len() ==> comes_before(
            name,
            sorted[insertion_point(sorted, name)].file_name,
        ),
    decreases sorted.len(),
{
    if sorted.len() == 0 || comes_before(name, sorted.first().file_name) {
    } else {
        let rest = sorted.drop_first();
        lemma_insertion_point(rest, name);
        let p = insertion_point(sorted, name);
        assert forall|k: int| 0 <= k < p implies !comes_before(
            name,
            (#[trigger] sorted[k]).file_name,
        ) by {
            if k > 0 {
                assert(sorted[k] == rest[k - 1]);
            }
        }
        if p < sorted.len() {
            assert(sorted[p] == rest[p - 1]);
        }
    }
}

/// Sorting by name yields a sorted listing of the same length.
pub proof fn lemma_sorted_by_name_is_sorted(files: Seq<FoundView>)
    ensures
        is_sorted(sorted_by_name(files)),
        sorted_by_name(files).len() == files.len(),
    decreases files.len(),
{
    if files.len() > 0 {
        let sorted = sorted_by_name(files.drop_last());
        let file = files.last();
        lemma_sorted_by_name_is_sorted(files.drop_last());
        lemma_insertion_point(sorted, file.file_name);
        let p = insertion_point(sorted, file.file_name);
        let grown = sorted.insert(p, file);
        sorted.insert_ensures(p, file);
        assert forall|i: int, j: int| 0 <= i < j < grown.len() implies !comes_before(
            (#[trigger] grown[j]).file_name,
            (#[trigger] grown[i]).file_name,
        ) by {
            if j == p {
                assert(grown[i] == sorted[i]);
            } else if i == p {
                let later = sorted[j - 1];
                let next = sorted[p];
                assert(grown[j] == later);
                if p < j - 1 {
                    assert(!comes_before(later.file_name, next.file_name));
                } else {
                    lemma_comes_before_irreflexive(next.file_name);
                }
                lemma_not_before(later.file_name, next.file_name, file.file_name);
            } else {
                let from_i = if i < p {
                    i
                } else {
                    i - 1
                };
                let from_j = if j < p {
                    j
                } else {
                    j - 1
                };
                assert(grown[i] == sorted[from_i]);
                assert(grown[j] == sorted[from_j]);
            }
        }
    }
}

/// Sorting by name keeps every file, each as often as it was found.
pub proof fn lemma_sorted_by_name_permutes(files: Seq<FoundView>)
    ensures
        sorted_by_name(files).to_multiset() == files.to_multiset(),
    decreases files.len(),
{
    broadcast use vstd::seq_lib::group_to_multiset_ensures;

    if files.len() > 0 {
        let rest = files.drop_last();
        let sorted = sorted_by_name(rest);
        lemma_sorted_by_name_permutes(rest);
        lemma_sorted_by_name_is_sorted(rest);
        lemma_insertion_point(sorted, files.last().file_name);
        vstd::seq_lib::to_multiset_insert(
            sorted,
            insertion_point(sorted, files.last().file_name),
            files.last(),
        );
        assert(rest.push(files.last()) =~= files);
    } else {
        assert(sorted_by_name(files) =~= files);
    }
}

/// The width of the column of modification times.
pub const TIME_WIDTH: usize = 12;

/// The decimal digit for a number below ten.
pub open spec fn digit(d: nat) -> char {
    if d == 0 {
        '0'
    } else if d == 1 {
        '1'
    } else if d == 2 {
        '2'
    } else if d == 3 {
        '3'
    } else if d == 4 {
        '4'
    } else if d == 5 {
        '5'
    } else if d == 6 {
        '6'
    } else if d == 7 {
        '7'
    } else if d == 8 {
        '8'
    } else {
        '9'
    }
}

/// A number in decimal, without leading zeros.
pub open spec fn decimal(n: nat) -> Seq<char>
    decreases n,
{
    if n < 10 {
        seq![digit(n)]
    } else {
        decimal(n / 10).push(digit(n % 10))
    }
}

/// A text filled up with spaces on the right until it has `width`
/// characters; a longer text stays as it is.
pub open spec fn padded(text: Seq<char>, width: nat) -> Seq<char> {
    if text.len() >= width {
        text
    } else {
        text + Seq::new((width - text.len()) as nat, |i: int| ' ')
    }
}

/// The width of the widest permissions text, in bytes.
pub open spec fn permissions_width(entries: Seq<EntryView>) -> nat
    decreases entries.len(),
{
    if entries.len() == 0 {
        0
    } else {
        let rest = permissions_width(entries.drop_last());
        let last = text_cells(entries.last().permissions);
        if last > rest {
            last
        } else {
            rest
        }
    }
}

/// The number of digits of the largest size.
pub open spec fn size_width(entries: Seq<EntryView>) -> nat
    decreases entries.len(),
{
    if entries.len() == 0 {
        0
    } else {
        let rest = size_width(entries.drop_last());
        let last = decimal(entries.last().size as nat).len();
        if last > rest {
            last
        } else {
            rest
        }
    }
}

/// An entry with its columns filled up to the given widths and its long line
/// put together: permissions, time, size and name, each one space apart. The
/// size is shown in decimal, or, for a human-readable listing, as the size
/// text the entry came with.
pub open spec fn long_entry(
    entry: EntryView,
    permissions_width: nat,
    size_width: nat,
    human_readable: bool,
) -> EntryView {
    let permissions = padded(entry.permissions, permissions_width);
    let formatted_time = padded(entry.formatted_time, TIME_WIDTH as nat);
    let size_string = padded(
        if human_readable {
            entry.size_string
        } else {
            decimal(entry.size as nat)
        },
        size_width,
    );
    EntryView {
        file_name: entry.file_name,
        long_format: permissions + seq![' '] + formatted_time + seq![' '] + size_string + seq![' ']
            + entry.file_name,
        path: entry.path,
        permissions,
        formatted_time,
        size: entry.size,
        size_string,
    }
}

/// Appends `n` in decimal.
pub fn push_decimal(out: &mut String, n: u64)
    ensures
        final(out)@ == old(out)@ + decimal(n as nat),
    decreases n,
{
    if n >= 10 {
        push_decimal(out, n / 10);
    }
    let d: u64 = n % 10;
    let c: char = if d == 0 {
        '0'
    } else if d == 1 {
        '1'
    } else if d == 2 {
        '2'
    } else if d == 3 {
        '3'
    } else if d == 4 {
        '4'
    } else if d == 5 {
        '5'
    } else if d == 6 {
        '6'
    } else if d == 7 {
        '7'
    } else if d == 8 {
        '8'
    } else {
        '9'
    };
    out.push(c);
    assert(out@ =~= old(out)@ + decimal(n as nat));
}

/// `text` filled up with spaces on the right to `width` characters.
pub fn pad_right(text: &str, width: usize) -> (out: String)
    ensures
        out@ == padded(text@, width as nat),
{
    let chars: Vec<char> = chars_of(text);
    let mut out = String::new();
    push_range(&mut out, &chars, 0, chars.len());
    assert(out@ =~= text@);
    let mut n: usize = chars.len();
    while n < width
        invariant
            text@.len() <= n,
            n <= width || n == text@.len(),
            out@ == text@ + Seq::new((n - text@.len()) as nat, |i: int| ' '),
        decreases width - n,
    {
        out.push(' ');
        n = n + 1;
        assert(out@ =~= text@ + Seq::new((n - text@.len()) as nat, |i: int| ' '));
    }
    assert(out@ =~= padded(text@, width as nat));
    out
}

/// The number of decimal digits of `n`.
fn decimal_len(n: u64) -> (len: usize)
    ensures
        len == decimal(n as nat).len(),
        1 <= len <= 20,
    decreases n,
{
    if n < 10 {
        1
    } else {
        let rest: usize = decimal_len(n / 10);
        assert(rest <= 19) by {
            lemma_decimal_len_bound((n / 10) as nat);
        }
        rest + 1
    }
}

/// A tenth of a 64-bit number has at most 19 digits.
proof fn lemma_decimal_len_bound(n: nat)
    requires
        n <= 1844674407370955161,
    ensures
        decimal(n).len() <= 19,
{
    reveal_with_fuel(decimal, 20);
}

/// Fills up the columns of a long listing and puts the long line of every
/// entry together. The permissions column is as wide as its widest text, the
/// size column as wide as the largest size in decimal, the time column 12
/// characters. With `show_human_readable` the size text that each entry
/// came with is shown; otherwise the size in decimal.
pub fn complete_long_format(entries: &mut Vec<DirectoryEntry>, show_human_readable: bool)
    ensures
        final(entries)@.len() == old(entries)@.len(),
        forall|i: int|
            0 <= i < old(entries)@.len() ==> (#[trigger] final(entries)@[i])@ == long_entry(
                old(entries)@[i]@,
                permissions_width(entry_views(old(entries)@)),
                size_width(entry_views(old(entries)@)),
                show_human_readable,
            ),
{
    let n: usize = entries.len();
    let mut max_permissions: usize = 0;
    let mut max_size: usize = 0;
    let mut i: usize = 0;
    let ghost views = entry_views(entries@);
    while i < n
        invariant
            i <= n,
            n == entries@.len(),
            *entries == *old(entries),
            views == entry_views(entries@),
            max_permissions == permissions_width(views.take(i as int)),
            max_size == size_width(views.take(i as int)),
        decreases n - i,
    {
        proof {
            let next = views.take(i + 1);
            assert(next.drop_last() =~= views.take(i as int));
            assert(next.last() == entries@[i as int]@);
        }
        let width: usize = byte_len(entries[i].permissions.as_str());
        if width > max_permissions {
            max_permissions = width;
        }
        let digits: usize = decimal_len(entries[i].size);
        if digits > max_size {
            max_size = digits;
        }
        i = i + 1;
    }
    proof {
        assert(views.take(n as int) =~= views);
    }
    let mut i: usize = 0;
    while i < n
        invariant
            i <= n,
            n == entries@.len(),
            n == old(entries)@.len(),
            max_permissions == permissions_width(entry_views(old(entries)@)),
            max_size == size_width(entry_views(old(entries)@)),
            forall|k: int|
                0 <= k < i ==> (#[trigger] entries@[k])@ == long_entry(
                    old(entries)@[k]@,
                    max_permissions as nat,
                    max_size as nat,
                    show_human_readable,
                ),
            forall|k: int| i <= k < n ==> entries@[k] == old(entries)@[k],
        decreases n - i,
    {
        let ghost before = entries@[i as int]@;
        let entry = &mut entries[i];
        let permissions: String = pad_right(entry.permissions.as_str(), max_permissions);
        let formatted_time: String = pad_right(entry.formatted_time.as_str(), TIME_WIDTH);
        let size_string: String = if show_human_readable {
            pad_right(entry.size_string.as_str(), max_size)
        } else {
            pad_right(decimal_string(entry.size).as_str(), max_size)
        };
        let mut long_format = String::new();
        long_format.append(permissions.as_str());
        long_format.push(' ');
        long_format.append(formatted_time.as_str());
        long_format.push(' ');
        long_format.append(size_string.as_str());
        long_format.push(' ');
        long_format.append(entry.file_name.as_str());
        assert(long_format@ =~= long_entry(
            before,
            max_permissions as nat,
            max_size as nat,
            show_human_readable,
        ).long_format);
        entry.permissions = permissions;
        entry.formatted_time = formatted_time;
        entry.size_string = size_string;
        entry.long_format = long_format;
        i = i + 1;
    }
}

/// The width that the permissions are filled up to in a plain long line.
pub const PLAIN_PERMISSIONS_WIDTH: usize = 10;

/// A text filled up with spaces on the left until it has `width`
/// characters; a longer text stays as it is.
pub open spec fn padded_left(text: Seq<char>, width: nat) -> Seq<char> {
    if text.len() >= width {
        text
    } else {
        Seq::new((width - text.len()) as nat, |i: int| ' ') + text
    }
}

/// The long line of a listing without aligned columns: the permissions, set
/// to the right in ten characters, then time, size and name, each one space
/// apart.
pub open spec fn plain_long_line(
    permissions: Seq<char>,
    formatted_time: Seq<char>,
    size_string: Seq<char>,
    file_name: Seq<char>,
) -> Seq<char> {
    padded_left(permissions, PLAIN_PERMISSIONS_WIDTH as nat) + seq![' '] + formatted_time + seq![
        ' ',
    ] + size_string + seq![' '] + file_name
}

/// `n` in decimal.
pub fn decimal_string(n: u64) -> (out: String)
    ensures
        out@ == decimal(n as nat),
{
    let mut out = String::new();
    push_decimal(&mut out, n);
    assert(out@ =~= decimal(n as nat));
    out
}

/// `text` filled up with spaces on the left to `width` characters.
pub fn pad_left(text: &str, width: usize) -> (out: String)
    ensures
        out@ == padded_left(text@, width as nat),
{
    let chars: Vec<char> = chars_of(text);
    let mut out = String::new();
    let mut n: usize = chars.len();
    while n < width
        invariant
            chars@.len() <= n,
            n <= width || n == chars@.len(),
            out@ == Seq::new((n - chars@.len()) as nat, |i: int| ' '),
        decreases width - n,
    {
        out.push(' ');
        n = n + 1;
        assert(out@ =~= Seq::new((n - chars@.len()) as nat, |i: int| ' '));
    }
    let ghost filler = out@;
    push_range(&mut out, &chars, 0, chars.len());
    assert(out@ =~= filler + text@);
    assert(out@ =~= padded_left(text@, width as nat));
    out
}

/// Puts the plain long line of one file together.
pub fn format_plain_long_line(
    permissions: &str,
    formatted_time: &str,
    size_string: &str,
    file_name: &str,
) -> (line: String)
    ensures
        line@ == plain_long_line(permissions@, formatted_time@, size_string@, file_name@),
{
    let mut line: String = pad_left(permissions, PLAIN_PERMISSIONS_WIDTH);
    line.push(' ');
    line.append(formatted_time);
    line.push(' ');
    line.append(size_string);
    line.push(' ');
    line.append(file_name);
    assert(line@ =~= plain_long_line(permissions@, formatted_time@, size_string@, file_name@));
    line
}

} // verus!
