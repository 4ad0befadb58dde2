use vstd::prelude::*;
use vstd::string::*;

use crate::text::{ends_with, is_prefix_of, is_suffix_of, starts_with};

verus! {

/// The two characters in front of a directory's name in the list: a folder icon and a space.
pub open spec fn folder_mark() -> Seq<char> {
    seq!['\u{1F4C1}', ' ']
}

/// The two characters in front of a game image (`.so` or `.apk`): a game pad icon and a space.
pub open spec fn game_mark() -> Seq<char> {
    seq!['\u{1F3AE}', ' ']
}

/// The two characters in front of any other file: a page icon and a space.
pub open spec fn document_mark() -> Seq<char> {
    seq!['\u{1F4C4}', ' ']
}

/// The first entry of every listing, which leads to the parent directory.
pub open spec fn parent_entry() -> Seq<char> {
    folder_mark() + seq!['.', '.']
}

/// A file that the emulator can load: its name ends in `.so` or `.apk`.
pub open spec fn is_game_name(name: Seq<char>) -> bool {
    is_suffix_of(seq!['.', 's', 'o'], name) || is_suffix_of(seq!['.', 'a', 'p', 'k'], name)
}

/// The text shown for one item of a directory listing (name, is-directory).
pub open spec fn entry_label(item: (Seq<char>, bool)) -> Seq<char> {
    if item.1 {
        folder_mark() + item.0
    } else if is_game_name(item.0) {
        game_mark() + item.0
    } else {
        document_mark() + item.0
    }
}

/// The entries of the list for a directory whose items are `listing`:
/// the parent entry, then one label per item, in the order of the listing.
pub open spec fn listing_entries(listing: Seq<(Seq<char>, bool)>) -> Seq<Seq<char>> {
    seq![parent_entry()] + listing.map_values(|item: (Seq<char>, bool)| entry_label(item))
}

/// What an entry of the list stands for, as the browser reads it back from its text.
pub enum EntryKind {
    Parent,
    Directory,
    File,
    Unknown,
}

/// How the browser reads an entry: the parent entry, then by its leading icon.
pub open spec fn classify(label: Seq<char>) -> EntryKind {
    if label == parent_entry() {
        EntryKind::Parent
    } else if is_prefix_of(folder_mark(), label) {
        EntryKind::Directory
    } else if is_prefix_of(game_mark(), label) || is_prefix_of(document_mark(), label) {
        EntryKind::File
    } else {
        EntryKind::Unknown
    }
}

/// The name that the browser takes from a directory or file entry: the text from the
/// sixth byte on. The icon and the space take five bytes, so this is the entry's
/// text after its third character; it exists when that third character is a
/// single byte (ASCII).
pub open spec fn entry_name(label: Seq<char>) -> Seq<char> {
    label.skip(3)
}

/// The entry can be read back without cutting a character in two.
pub open spec fn readable_entry(label: Seq<char>) -> bool {
    match classify(label) {
        EntryKind::Directory | EntryKind::File => label.len() >= 3 && (label[2] as u32) < 128,
        _ => true,
    }
}

/// `base/name`.
pub open spec fn join_path(base: Seq<char>, name: Seq<char>) -> Seq<char> {
    base + seq!['/'] + name
}

/// A non-empty path made of separators only: the root.
pub open spec fn is_root_only(path: Seq<char>) -> bool {
    path.len() > 0 && forall|i: int| 0 <= i < path.len() ==> path[i] == '/'
}

/// A non-empty path without a separator: one relative component.
pub open spec fn is_single_relative_component(path: Seq<char>) -> bool {
    path.len() > 0 && forall|i: int| 0 <= i < path.len() ==> path[i] != '/'
}

/// The index of the last separator `/` in `path`, if it has one.
pub open spec fn last_slash(path: Seq<char>) -> Option<int>
    decreases path.len(),
{
    if path.len() == 0 {
        None
    } else if path.last() == '/' {
        Some(path.len() - 1)
    } else {
        last_slash(path.drop_last())
    }
}

/// The path is `q/c` where `c`, the part after the last separator, is a plain
/// component (not empty, not `.` or `..`), and `q` is not empty and does not end in a
/// separator or in `/.`: `q` is then exactly the path without its final component.
pub open spec fn has_plain_last_component(path: Seq<char>) -> bool {
    match last_slash(path) {
        None => false,
        Some(i) => {
            let q = path.take(i);
            let c = path.skip(i + 1);
            &&& q.len() > 0
            &&& q.last() != '/'
            &&& !(q.len() >= 2 && q[q.len() - 2] == '/' && q.last() == '.')
            &&& c.len() > 0
            &&& c != seq!['.']
            &&& c != seq!['.', '.']
        },
    }
}

/// The path before its last separator.
pub open spec fn before_last_slash(path: Seq<char>) -> Seq<char> {
    match last_slash(path) {
        None => path,
        Some(i) => path.take(i),
    }
}

/// The result of `std::path::Path::parent` on a path, taken as text.
pub uninterp spec fn path_parent(path: Seq<char>) -> Option<Seq<char>>;

/// Calls `std::path::Path::parent` on `path` and turns the result into a `String`.
/// The contract names the result `path_parent`, and states what std's documentation
/// says plainly: the empty path and a path that is only a root have no parent, and a
/// relative path of one component has the empty path as parent; and, as the path
/// without its final component, the parent of `q/c` is `q` where `c` is a plain
/// component and `q` does not end in a separator or `/.` (std trims those from the
/// end of what it returns). The parent of other paths is left to the name.
#[verifier::external_body]
fn parent_of(path: &str) -> (parent: Option<String>)
    ensures
        parent is None <==> path_parent(path@) is None,
        parent matches Some(p) ==> path_parent(path@) == Some(p@),
        path@.len() == 0 ==> parent is None,
        is_root_only(path@) ==> parent is None,
        is_single_relative_component(path@) ==> parent is Some,
        parent matches Some(p) ==> !is_single_relative_component(path@) || p@.len() == 0,
        has_plain_last_component(path@) ==> parent is Some,
        parent matches Some(p) ==> !has_plain_last_component(path@) || p@ == before_last_slash(
            path@,
        ),
{
    match std::path::Path::new(path).parent() {
        Some(p) => Some(p.to_string_lossy().into_owned()),
        None => None,
    }
}

/// The entry starts with one of the three marks.
pub open spec fn marked(label: Seq<char>) -> bool {
    is_prefix_of(folder_mark(), label) || is_prefix_of(game_mark(), label) || is_prefix_of(
        document_mark(),
        label,
    )
}

/// The shape of every list the browser shows: the parent entry first, then entries
/// that each start with a mark.
pub open spec fn entries_shaped(entries: Seq<Seq<char>>) -> bool {
    &&& entries.len() >= 1
    &&& entries[0] == parent_entry()
    &&& forall|i: int| 1 <= i < entries.len() ==> marked(#[trigger] entries[i])
}

/// One item of a directory listing, as the walk over the directory reports it.
pub struct DirItem {
    pub name: String,
    pub is_dir: bool,
}

impl View for DirItem {
    type V = (Seq<char>, bool);

    open spec fn view(&self) -> (Seq<char>, bool) {
        (self.name@, self.is_dir)
    }
}

impl DirItem {
    pub fn new(name: String, is_dir: bool) -> (item: DirItem)
        ensures
            item@ == (name@, is_dir),
    {
        DirItem { name, is_dir }
    }
}

/// The items of a listing, each by its view.
pub open spec fn listing_view(listing: Seq<DirItem>) -> Seq<(Seq<char>, bool)> {
    listing.map_values(|item: DirItem| item@)
}

/// What a selection in the list asks of the caller.
pub enum Selection {
    /// The current directory changed: list it again and hand the listing to `refresh`.
    Navigated,
    /// A file was chosen; its full path.
    Picked(String),
    /// Nothing to do.
    Stay,
}

/// A list of the entries of one directory, from which a game file is picked.
pub struct FileBrowser {
    current_path: String,
    entries: Vec<String>,
}

impl View for FileBrowser {
    /// The current directory and the entries shown for it.
    type V = (Seq<char>, Seq<Seq<char>>);

    closed spec fn view(&self) -> (Seq<char>, Seq<Seq<char>>) {
        (self.current_path@, self.entries@.map_values(|e: String| e@))
    }
}

/// The text shown for one listed item.
fn label_for(item: &DirItem) -> (label: String)
    ensures
        label@ == entry_label(item@),
{
    let mut label = if item.is_dir {
        String::from_str("📁 ")
    } else if ends_with(item.name.as_str(), ".so") || ends_with(item.name.as_str(), ".apk") {
        String::from_str("🎮 ")
    } else {
        String::from_str("📄 ")
    };
    proof {
        reveal_strlit("📁 ");
        reveal_strlit("🎮 ");
        reveal_strlit("📄 ");
        reveal_strlit(".so");
        reveal_strlit(".apk");
        assert("📁 "@ =~= folder_mark());
        assert("🎮 "@ =~= game_mark());
        assert("📄 "@ =~= document_mark());
        assert(".so"@ =~= seq!['.', 's', 'o']);
        assert(".apk"@ =~= seq!['.', 'a', 'p', 'k']);
    }
    label.append(item.name.as_str());
    label
}

/// The parent entry as a `String`.
fn parent_label() -> (label: String)
    ensures
        label@ == parent_entry(),
{
    proof {
        reveal_strlit("📁 ..");
        assert("📁 .."@ =~= parent_entry());
    }
    String::from_str("📁 ..")
}

/// `base/name` for the name that `entry` holds.
fn path_of_entry(base: &String, entry: &str) -> (path: String)
    requires
        entry@.len() >= 3,
    ensures
        path@ == join_path(base@, entry_name(entry@)),
        path@ == base@ + seq!['/'] + entry@.skip(3),
{
    let name = entry.substring_char(3, entry.unicode_len());
    let mut path = base.clone();
    path.append("/");
    path.append(name);
    proof {
        reveal_strlit("/");
        assert("/"@ =~= seq!['/']);
        assert(path@ =~= join_path(base@, entry_name(entry@)));
    }
    path
}

impl FileBrowser {
    #[verifier::type_invariant]
    closed spec fn shaped(&self) -> bool {
        entries_shaped(self@.1)
    }

    /// A browser on `start_path`, showing `listing`, the items of that directory
    /// (empty where it cannot be read).
    pub fn new(start_path: &str, listing: &Vec<DirItem>) -> (browser: FileBrowser)
        ensures
            browser@.0 == start_path@,
            browser@.1 == listing_entries(listing_view(listing@)),
    {
        let mut entries: Vec<String> = Vec::new();
        entries.push(parent_label());
        proof {
            assert(entries@.map_values(|e: String| e@) =~= seq![parent_entry()]);
        }
        let mut browser = FileBrowser { current_path: String::from_str(start_path), entries };
        browser.refresh(listing);
        browser
    }

    /// Shows `listing`, the items of the current directory (empty where it cannot be
    /// read): the parent entry first, then one entry per item, in order.
    pub fn refresh(&mut self, listing: &Vec<DirItem>)
        ensures
            final(self)@.0 == old(self)@.0,
            final(self)@.1 == listing_entries(listing_view(listing@)),
    {
        let ghost items = listing_view(listing@);
        let mut entries: Vec<String> = Vec::new();
        entries.push(parent_label());
        let n = listing.len();
        let mut i: usize = 0;
        while i < n
            invariant
                n == listing@.len(),
                items == listing_view(listing@),
                i <= n,
                entries@.map_values(|e: String| e@) =~= listing_entries(items.take(i as int)),
            decreases n - i,
        {
            let label = label_for(&listing[i]);
            let ghost before = entries@.map_values(|e: String| e@);
            entries.push(label);
            proof {
                let g = |item: (Seq<char>, bool)| entry_label(item);
                assert(items[i as int] == listing@[i as int]@);
                assert(items.take(i + 1) =~= items.take(i as int).push(items[i as int]));
                assert(items.take(i + 1).map_values(g) =~= items.take(i as int).map_values(g).push(
                    g(items[i as int]),
                ));
                assert(entries@.map_values(|e: String| e@) =~= before.push(label@));
            }
            i = i + 1;
        }
        assert(items.take(n as int) =~= items);
        proof {
            listing_shape(items);
        }
        self.entries = entries;
    }

    /// The current directory.
    pub fn current_path(&self) -> (path: &String)
        ensures
            path@ == self@.0,
    {
        &self.current_path
    }

    /// The number of entries shown. Every list has the parent entry first and
    /// marked entries after it.
    pub fn len(&self) -> (n: usize)
        ensures
            n == self@.1.len(),
            entries_shaped(self@.1),
    {
        proof {
            use_type_invariant(self);
        }
        self.entries.len()
    }

    /// The entry at `index`.
    pub fn entry(&self, index: usize) -> (e: &String)
        requires
            index < self@.1.len(),
        ensures
            e@ == self@.1[index as int],
    {
        &self.entries[index]
    }

    /// Moves to `parent`, the parent of the current directory where there is one.
    /// Returns whether the current directory changed.
    pub fn go_to_parent(&mut self, parent: Option<String>) -> (moved: bool)
        ensures
            final(self)@.1 == old(self)@.1,
            moved == parent is Some,
            match parent {
                Some(p) => final(self)@.0 == p@,
                None => final(self)@.0 == old(self)@.0,
            },
    {
        proof {
            use_type_invariant(&*self);
        }
        match parent {
            Some(p) => {
                self.current_path = p;
                true
            },
            None => false,
        }
    }

    /// Acts on a click on the entry at `index`. The parent entry moves to the parent
    /// directory (where the current one has a parent); a directory entry moves into
    /// the directory that its entry names; a file entry hands on the path of the file
    /// that its entry names. The entries are left as they are: after `Navigated` the
    /// caller lists the new directory and calls `refresh`.
    pub fn select_entry(&mut self, index: usize) -> (sel: Selection)
        requires
            index < old(self)@.1.len(),
            readable_entry(old(self)@.1[index as int]),
        ensures
            final(self)@.1 == old(self)@.1,
            ({
                let label = old(self)@.1[index as int];
                let path = old(self)@.0;
                match classify(label) {
                    EntryKind::Parent => match path_parent(path) {
                        Some(p) => final(self)@.0 == p && sel is Navigated,
                        None => final(self)@.0 == path && sel is Stay,
                    },
                    EntryKind::Directory => final(self)@.0 == join_path(path, entry_name(label))
                        && sel is Navigated,
                    EntryKind::File => final(self)@.0 == path && (sel matches Selection::Picked(
                        full,
                    ) && full@ == join_path(path, entry_name(label))),
                    EntryKind::Unknown => final(self)@.0 == path && sel is Stay,
                }
            }),
            classify(old(self)@.1[index as int]) is Parent && has_plain_last_component(old(self)@.0)
                ==> final(self)@.0 == before_last_slash(old(self)@.0) && sel is Navigated,
    {
        proof {
            use_type_invariant(&*self);
        }
        let ghost label = self@.1[index as int];
        let parent = parent_label();
        let is_parent = self.entries[index] == parent;
        let entry = self.entries[index].as_str();
        proof {
            reveal_strlit("📁 ");
            reveal_strlit("🎮 ");
            reveal_strlit("📄 ");
            assert("📁 "@ =~= folder_mark());
            assert("🎮 "@ =~= game_mark());
            assert("📄 "@ =~= document_mark());
            assert(entry@ == label);
        }
        if is_parent {
            let parent_path = parent_of(self.current_path.as_str());
            if self.go_to_parent(parent_path) {
                Selection::Navigated
            } else {
                Selection::Stay
            }
        } else if starts_with(entry, "📁 ") {
            let path = path_of_entry(&self.current_path, entry);
            self.current_path = path;
            Selection::Navigated
        } else if starts_with(entry, "🎮 ") || starts_with(entry, "📄 ") {
            let path = path_of_entry(&self.current_path, entry);
            Selection::Picked(path)
        } else {
            Selection::Stay
        }
    }
}

/// Every listed item is read back as what it is. The entry of a directory reads as a
/// directory (one named `..` reads as the parent entry), the entry of a file as a file,
/// and both can be read without cutting a character when the name starts with an ASCII
/// character. The name read back is the item's name without its first character.
pub proof fn label_read_back(item: (Seq<char>, bool))
    ensures
        item.1 && item.0 != seq!['.', '.'] ==> classify(entry_label(item)) is Directory,
        item.1 && item.0 == seq!['.', '.'] ==> classify(entry_label(item)) is Parent,
        !item.1 ==> classify(entry_label(item)) is File,
        item.0.len() > 0 ==> entry_name(entry_label(item)) == item.0.skip(1),
        item.0.len() > 0 && (item.0[0] as u32) < 128 ==> readable_entry(entry_label(item)),
{
    let label = entry_label(item);
    let mark = label.take(2);
    assert(label.take(2) =~= mark);
    if item.1 {
        assert(mark =~= folder_mark());
        assert(label.skip(2) =~= item.0);
        assert(parent_entry().skip(2) =~= seq!['.', '.']);
        if item.0 == seq!['.', '.'] {
            assert(label =~= parent_entry());
        }
    } else if is_game_name(item.0) {
        assert(mark =~= game_mark());
        assert(label[0] != parent_entry()[0]);
        assert(label.take(2) != folder_mark());
    } else {
        assert(mark =~= document_mark());
        assert(label[0] != parent_entry()[0]);
        assert(label.take(2) != folder_mark());
        assert(label.take(2) != game_mark());
    }
    if item.0.len() > 0 {
        assert(entry_name(label) =~= item.0.skip(1));
        assert(label[2] == item.0[0]);
    }
}

/// Every list the browser builds from a listing has the parent entry first and one
/// marked entry per item after it; where every name is non-empty, each of those
/// entries holds more than its mark.
pub proof fn listing_shape(listing: Seq<(Seq<char>, bool)>)
    ensures
        entries_shaped(listing_entries(listing)),
        listing_entries(listing).len() == listing.len() + 1,
        (forall|i: int| 0 <= i < listing.len() ==> (#[trigger] listing[i]).0.len() > 0) ==> forall|
            i: int,
        |
            1 <= i < listing_entries(listing).len() ==> (#[trigger] listing_entries(listing)[i]).len()
                > 2,
{
    let entries = listing_entries(listing);
    assert forall|i: int| 1 <= i < entries.len() implies marked(#[trigger] entries[i]) && entries[i].len()
        == listing[i - 1].0.len() + 2 by {
        let item = listing[i - 1];
        let label = entry_label(item);
        assert(entries[i] == label);
        if item.1 {
            assert(label.take(2) =~= folder_mark());
        } else if is_game_name(item.0) {
            assert(label.take(2) =~= game_mark());
        } else {
            assert(label.take(2) =~= document_mark());
        }
    }
}

proof fn last_slash_after(s: Seq<char>, t: Seq<char>)
    requires
        forall|k: int| 0 <= k < t.len() ==> t[k] != '/',
    ensures
        last_slash(s.push('/') + t) == Some(s.len() as int),
    decreases t.len(),
{
    if t.len() == 0 {
        assert(s.push('/') + t =~= s.push('/'));
    } else {
        let u = s.push('/') + t;
        assert(u.last() == t.last());
        assert(u.drop_last() =~= s.push('/') + t.drop_last());
        last_slash_after(s, t.drop_last());
    }
}

/// The parent entry moves up exactly one directory: in a directory `q/c`, where `c`
/// is a plain component (not empty, no separator, not `.` or `..`) and `q` is not
/// empty and does not end in a separator or `/.`, the parent is `q`; so selecting
/// the parent entry there moves to `q` (see `select_entry`).
pub proof fn parent_entry_moves_up_one(q: Seq<char>, c: Seq<char>)
    requires
        q.len() > 0,
        q.last() != '/',
        !(q.len() >= 2 && q[q.len() - 2] == '/' && q.last() == '.'),
        c.len() > 0,
        forall|k: int| 0 <= k < c.len() ==> c[k] != '/',
        c != seq!['.'],
        c != seq!['.', '.'],
    ensures
        has_plain_last_component(q + seq!['/'] + c),
        before_last_slash(q + seq!['/'] + c) == q,
{
    let path = q + seq!['/'] + c;
    assert(q + seq!['/'] + c =~= q.push('/') + c);
    last_slash_after(q, c);
    assert(path.take(q.len() as int) =~= q);
    assert(path.skip(q.len() as int + 1) =~= c);
}

/// The path entered or picked from an entry is the current path, exactly one
/// separator, and the name: whatever the current path is.
pub proof fn joined_path_has_one_separator(base: Seq<char>, name: Seq<char>)
    ensures
        join_path(base, name).len() == base.len() + 1 + name.len(),
        join_path(base, name).take(base.len() as int) == base,
        join_path(base, name)[base.len() as int] == '/',
        join_path(base, name).skip(base.len() as int + 1) == name,
{
    assert(join_path(base, name).take(base.len() as int) =~= base);
    assert(join_path(base, name).skip(base.len() as int + 1) =~= name);
}

/// The entry of a file that is not a directory is the game mark followed by the name
/// exactly when the name ends in `.so` or `.apk`, and the document mark followed by
/// the name otherwise; the entry of a directory is the folder mark followed by the name.
pub proof fn file_entry_marks(name: Seq<char>, is_dir: bool)
    ensures
        entry_label((name, is_dir)).len() == name.len() + 2,
        entry_label((name, is_dir)).skip(2) == name,
        entry_label((name, is_dir))[1] == ' ',
        is_dir ==> entry_label((name, is_dir))[0] == '\u{1F4C1}',
        !is_dir ==> (entry_label((name, is_dir))[0] == '\u{1F3AE}' <==> ((name.len() >= 3
            && name.subrange(name.len() - 3, name.len() as int) == seq!['.', 's', 'o']) || (
        name.len() >= 4 && name.subrange(name.len() - 4, name.len() as int) == seq![
            '.',
            'a',
            'p',
            'k',
        ]))),
        !is_dir ==> (entry_label((name, is_dir))[0] == '\u{1F4C4}' <==> !((name.len() >= 3
            && name.subrange(name.len() - 3, name.len() as int) == seq!['.', 's', 'o']) || (
        name.len() >= 4 && name.subrange(name.len() - 4, name.len() as int) == seq![
            '.',
            'a',
            'p',
            'k',
        ]))),
{
    let label = entry_label((name, is_dir));
    assert(label.skip(2) =~= name);
    if name.len() >= 3 {
        assert(name.skip(name.len() - 3) =~= name.subrange(name.len() - 3, name.len() as int));
    }
    if name.len() >= 4 {
        assert(name.skip(name.len() - 4) =~= name.subrange(name.len() - 4, name.len() as int));
    }
}

} // verus!
