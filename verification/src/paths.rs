//! Paths of the configuration and of the processes.
use vstd::prelude::*;

verus! {

/// The file in the configuration directory that lists the processes.
pub const PROCS_CONFIG_FILENAME: &'static str = "processes.toml";

/// The directory that is pushed onto the home directory.
pub const CONFIG_DIR: &'static str = "/.rm2/";

/// Separates two components. The backslash does so on Windows alone.
pub open spec fn is_separator(c: char, windows: bool) -> bool {
    c == '/' || windows && c == '\\'
}

/// The path starts with a letter and a colon, which is a drive on Windows.
pub open spec fn has_drive(path: Seq<char>) -> bool {
    &&& path.len() >= 2
    &&& path[1] == ':'
    &&& 'a' <= path[0] <= 'z' || 'A' <= path[0] <= 'Z'
}

/// The path starts with two separators, which is a share or a device on Windows.
pub open spec fn has_share(path: Seq<char>) -> bool {
    path.len() >= 2 && is_separator(path[0], true) && is_separator(path[1], true)
}

/// The path starts with a marker by which Windows may take it literally, which
/// is a question mark between separators behind the first two.
pub open spec fn is_verbatim(path: Seq<char>) -> bool {
    has_share(path) && path.len() >= 4 && path[2] == '?' && is_separator(path[3], true)
}

/// A path that every platform reads alike: only `/` separates its components
/// and no platform sees a drive, a share or a device in its beginning.
pub open spec fn is_portable(path: Seq<char>) -> bool {
    !path.contains('\\') && !has_drive(path) && !has_share(path)
}

/// `path` without the separators and the `.` components at its end, as far as
/// they stand behind its first `start` characters.
pub open spec fn trimmed(path: Seq<char>, start: int, windows: bool) -> Seq<char>
    decreases path.len(),
{
    if path.len() > 0 && path.len() > start && (is_separator(path.last(), windows) || path.last()
        == '.' && path.len() >= 2 && is_separator(path[path.len() - 2], windows)) {
        trimmed(path.drop_last(), start, windows)
    } else {
        path
    }
}

/// `path` through its last separator, or its first `start` characters.
pub open spec fn through_separator(path: Seq<char>, start: int, windows: bool) -> Seq<char>
    decreases path.len(),
{
    if path.len() == 0 || path.len() <= start || is_separator(path.last(), windows) {
        path
    } else {
        through_separator(path.drop_last(), start, windows)
    }
}

/// `path` without its final component, where its first `start` characters are
/// its root. A path that is no more than its root stays as it is.
pub open spec fn parent_behind(path: Seq<char>, start: int, windows: bool) -> Seq<char> {
    let body = trimmed(path, start, windows);
    if body.len() <= start {
        path
    } else {
        trimmed(through_separator(body, start, windows), start, windows)
    }
}

/// The parent of a path by the conventions of Unix. The root is a leading `/`.
pub open spec fn unix_parent(path: Seq<char>) -> Seq<char> {
    let start: int = if path.len() > 0 && path[0] == '/' {
        1
    } else {
        0
    };
    parent_behind(path, start, false)
}

/// Where the component that begins at `from` ends, by the conventions of Windows.
pub open spec fn component_end(path: Seq<char>, from: int) -> int
    decreases path.len() - from,
{
    if from >= path.len() || is_separator(path[from], true) {
        from
    } else {
        component_end(path, from + 1)
    }
}

/// How many characters name the share or the device in a path that starts with
/// two separators: a device follows a component of one `.`, and a share is a
/// server and a name, neither of which is empty. None do where it is neither.
pub open spec fn share_len(path: Seq<char>) -> int {
    if path.len() >= 4 && path[2] == '.' && is_separator(path[3], true) {
        component_end(path, 4)
    } else {
        let server = component_end(path, 2);
        let share = component_end(path, server + 1);
        if server > 2 && share > server + 1 {
            share
        } else {
            0
        }
    }
}

/// How many characters are the root of a path on Windows: a drive, a share or a
/// device and the separator behind it, each where the path has one. A `.`
/// directly behind a drive belongs to the root.
pub open spec fn windows_root(path: Seq<char>) -> int {
    let volume: int = if has_drive(path) {
        2
    } else if has_share(path) {
        share_len(path)
    } else {
        0
    };
    if path.len() > volume && is_separator(path[volume], true) {
        volume + 1
    } else if has_drive(path) && path.len() > 2 && path[2] == '.' && (path.len() == 3
        || is_separator(path[3], true)) {
        3
    } else {
        volume
    }
}

/// The parent, by the conventions of Windows, of a path that it does not take
/// literally.
pub open spec fn windows_parent(path: Seq<char>) -> Seq<char> {
    parent_behind(path, windows_root(path), true)
}

/// `dir` is what stays of `path` without its final component. It is always a
/// front part of `path`, and the parent by the conventions of either platform
/// unless Windows may take `path` literally.
pub open spec fn is_parent(path: Seq<char>, dir: Seq<char>) -> bool {
    &&& dir.is_prefix_of(path)
    &&& !is_verbatim(path) ==> dir == unix_parent(path) || dir == windows_parent(path)
}

/// The conventions of both platforms give the path the same parent.
pub open spec fn has_one_parent(path: Seq<char>) -> bool {
    !is_verbatim(path) && unix_parent(path) == windows_parent(path)
}

/// A single component that is neither `.` nor `..`.
pub open spec fn is_name(path: Seq<char>) -> bool {
    &&& path.len() > 0
    &&& is_portable(path)
    &&& !path.contains('/')
    &&& path != seq!['.']
    &&& path != seq!['.', '.']
}

/// `joined` is `base` extended by `path`, which starts with `/`: it replaces all
/// of `base` but a drive, a share or a device that the platform sees there.
pub open spec fn is_rooted_join(base: Seq<char>, path: Seq<char>, joined: Seq<char>) -> bool {
    &&& !has_drive(base) && !has_share(base) ==> joined == path
    &&& has_drive(base) ==> joined == path || joined == base.take(2) + path
    &&& !is_verbatim(base) ==> exists|prefix: Seq<char>| #[trigger]
        prefix.is_prefix_of(base) && joined == prefix + path
}

/// `joined` is `base` extended by `path`, which does not start with `/`: it is
/// appended, after a separator where `base` does not end in one. The platform
/// decides which separator that is, whether `base` ends in one where its last
/// character is a backslash, and whether a bare drive needs one.
pub open spec fn is_relative_join(base: Seq<char>, path: Seq<char>, joined: Seq<char>) -> bool {
    &&& is_name(path) ==> path.is_suffix_of(joined)
    &&& !is_verbatim(base) ==> {
        let bare = base + path;
        let separated = joined == base + seq!['/'] + path || joined == base + seq!['\\'] + path;
        &&& base.is_prefix_of(joined)
        &&& if base.len() == 0 || base.last() == '/' {
            joined == bare
        } else if base.last() == '\\' || base.len() == 2 && has_drive(base) {
            joined == bare || separated
        } else {
            separated
        }
    }
}

/// `joined` is `base` extended by `path`.
pub open spec fn is_join(base: Seq<char>, path: Seq<char>, joined: Seq<char>) -> bool {
    is_portable(path) && path.len() > 0 ==> if path[0] == '/' {
        is_rooted_join(base, path, joined)
    } else {
        is_relative_join(base, path, joined)
    }
}

/// `PathBuf::pop` truncates a path to its parent, and leaves it alone where it
/// has none. Repeated and trailing separators and `.` components do not count
/// as components, except a `.` at the beginning. It is claimed that the result
/// is the parent by the conventions of Unix or of Windows; of a path that
/// Windows may take literally, only that a front part stays.
#[verifier::external_body]
fn path_pop(path: &String) -> (r: String)
    ensures
        is_parent(path@, r@),
{
    let mut tmp = std::path::PathBuf::from(path.as_str());
    tmp.pop();
    tmp.into_os_string().into_string().unwrap()
}

/// `PathBuf::push` extends a path by another one, or replaces it where the other
/// one is absolute. Nothing is claimed where the other one is empty or platforms
/// read it differently, and less where Windows takes the first one literally.
#[verifier::external_body]
fn path_push(base: &String, path: &str) -> (r: String)
    ensures
        is_join(base@, path@, r@),
{
    let mut tmp = std::path::PathBuf::from(base.as_str());
    tmp.push(path);
    tmp.into_os_string().into_string().unwrap()
}

/// The directory that an executable lies in.
pub fn parent_dir(path: &String) -> (r: String)
    ensures
        is_parent(path@, r@),
        is_portable(path@) ==> r@ == unix_parent(path@),
{
    proof {
        if is_portable(path@) {
            lemma_portable_parent(path@);
        }
    }
    path_pop(path)
}

/// The directory of the configuration, for a user whose home is `home`. It is
/// absolute, so of the home directory only a drive, a share or a device matters.
pub fn get_config_dir(home: &String) -> (r: String)
    ensures
        is_rooted_join(home@, "/.rm2/"@, r@),
{
    proof {
        lemma_config_names();
    }
    path_push(home, CONFIG_DIR)
}

/// The file in `daemon_dir` that lists the processes.
pub fn get_procs_config_path(daemon_dir: &String) -> (r: String)
    ensures
        is_relative_join(daemon_dir@, "processes.toml"@, r@),
        "processes.toml"@.is_suffix_of(r@),
{
    proof {
        lemma_config_names();
    }
    path_push(daemon_dir, PROCS_CONFIG_FILENAME)
}

/// Whatever the home directory, as long as it names no drive, share or device,
/// the list of processes is the same file.
pub proof fn law_config_path_is_fixed(home: Seq<char>, dir: Seq<char>, file: Seq<char>)
    requires
        !has_drive(home),
        !has_share(home),
        is_rooted_join(home, "/.rm2/"@, dir),
        is_relative_join(dir, "processes.toml"@, file),
    ensures
        file == "/.rm2/processes.toml"@,
{
    assert(file == "/.rm2/"@ + "processes.toml"@) by {
        lemma_config_names();
    }
    assert("/.rm2/"@ + "processes.toml"@ =~= "/.rm2/processes.toml"@) by {
        reveal_strlit("/.rm2/");
        reveal_strlit("processes.toml");
        reveal_strlit("/.rm2/processes.toml");
    }
}

/// On a portable path the conventions of both platforms agree, so that its
/// parent is determined.
pub proof fn law_portable_parent_is_unique(path: Seq<char>, dir1: Seq<char>, dir2: Seq<char>)
    requires
        is_portable(path),
        is_parent(path, dir1),
        is_parent(path, dir2),
    ensures
        has_one_parent(path),
        dir1 == dir2,
        dir1 == unix_parent(path),
{
    lemma_portable_parent(path);
}

proof fn lemma_portable_parent(path: Seq<char>)
    requires
        is_portable(path),
    ensures
        unix_parent(path) == windows_parent(path),
{
    let start: int = if path.len() > 0 && path[0] == '/' {
        1
    } else {
        0
    };
    assert(path.len() > 0 ==> path.contains(path[0]));
    lemma_trimmed(path, start);
    let body = trimmed(path, start, false);
    lemma_through_separator(body, start);
    lemma_trimmed(through_separator(body, start, false), start);
}

proof fn lemma_trimmed(path: Seq<char>, start: int)
    requires
        !path.contains('\\'),
    ensures
        trimmed(path, start, false) == trimmed(path, start, true),
        !trimmed(path, start, false).contains('\\'),
    decreases path.len(),
{
    if path.len() > 0 {
        assert(path.contains(path.last()));
        if path.len() >= 2 {
            assert(path.contains(path[path.len() - 2]));
        }
        lemma_drop_last(path);
        lemma_trimmed(path.drop_last(), start);
    }
}

proof fn lemma_through_separator(path: Seq<char>, start: int)
    requires
        !path.contains('\\'),
    ensures
        through_separator(path, start, false) == through_separator(path, start, true),
        !through_separator(path, start, false).contains('\\'),
    decreases path.len(),
{
    if path.len() > 0 {
        assert(path.contains(path.last()));
        lemma_drop_last(path);
        lemma_through_separator(path.drop_last(), start);
    }
}

proof fn lemma_drop_last(path: Seq<char>)
    requires
        path.len() > 0,
        !path.contains('\\'),
    ensures
        !path.drop_last().contains('\\'),
{
    if path.drop_last().contains('\\') {
        let i = path.drop_last().index_of('\\');
        assert(path[i] == '\\');
    }
}

proof fn lemma_config_names()
    ensures
        is_portable("/.rm2/"@),
        "/.rm2/"@.len() > 0,
        "/.rm2/"@[0] == '/',
        "/.rm2/"@.last() == '/',
        !is_verbatim("/.rm2/"@),
        is_name("processes.toml"@),
        "processes.toml"@[0] != '/',
{
    reveal_strlit("/.rm2/");
    reveal_strlit("processes.toml");
}

/// No platform sees anything but names and `/` in the path: it holds no
/// backslash and no colon and does not start with two slashes.
pub open spec fn is_plain(path: Seq<char>) -> bool {
    &&& forall|i: int| 0 <= i < path.len() ==> path[i] != '\\' && path[i] != ':'
    &&& path.len() >= 2 ==> path[0] != '/' || path[1] != '/'
}

/// The name of something in a directory: neither empty nor `.`, and without `/`.
pub open spec fn is_entry(name: Seq<char>) -> bool {
    &&& name.len() > 0
    &&& forall|i: int| 0 <= i < name.len() ==> name[i] != '/'
    &&& name != seq!['.']
}

/// The directory is written without anything at its end that does not count.
pub open spec fn is_trim(dir: Seq<char>) -> bool {
    &&& dir.len() > 0
    &&& dir.last() != '/'
    &&& dir.last() == '.' && dir.len() >= 2 ==> dir[dir.len() - 2] != '/'
}

/// One or more `/`, between and behind which components of one `.` may stand.
pub open spec fn is_gap(gap: Seq<char>) -> bool {
    &&& gap.len() > 0
    &&& gap[0] == '/'
    &&& forall|i: int| 0 <= i < gap.len() ==> gap[i] == '/' || gap[i] == '.'
    &&& forall|i: int| 0 < i < gap.len() && #[trigger] gap[i] == '.' ==> gap[i - 1] == '/'
}

/// The parent of what is named in a directory is that directory, whatever gap
/// there is between the two.
pub proof fn law_parent_of_an_entry_is_its_directory(
    path: String,
    dir: Seq<char>,
    gap: Seq<char>,
    name: Seq<char>,
    parent: String,
)
    requires
        call_ensures(parent_dir, (&path,), parent),
        path@ == dir + gap + name,
        is_plain(path@),
        is_trim(dir),
        is_gap(gap),
        gap.last() == '/',
        is_entry(name),
    ensures
        parent@ == dir,
{
    lemma_plain_is_portable(path@);
    lemma_entry(dir, gap, name);
}

/// What is named in the root has the root as its parent, and a bare name has the
/// empty path.
pub proof fn law_parent_of_a_top_level_entry(
    path: String,
    gap: Seq<char>,
    name: Seq<char>,
    parent: String,
)
    requires
        call_ensures(parent_dir, (&path,), parent),
        path@ == gap + name || path@ == name,
        is_plain(path@),
        is_gap(gap),
        gap.last() == '/',
        is_entry(name),
    ensures
        path@ == gap + name ==> parent@ == seq!['/'],
        path@ == name ==> parent@.len() == 0,
{
    lemma_plain_is_portable(path@);
    lemma_top_level_entry(gap, name);
}

/// The root has no parent and stays as it is, and so does the empty path.
pub proof fn law_root_stays(path: String, parent: String)
    requires
        call_ensures(parent_dir, (&path,), parent),
        is_plain(path@),
        is_gap(path@) || path@.len() == 0,
    ensures
        parent@ == path@,
{
    lemma_plain_is_portable(path@);
    if is_gap(path@) {
        let root = path@.take(1);
        let rest = path@.skip(1);
        assert(path@ =~= root + rest);
        lemma_gap_is_trimmed(root, rest, 1);
        assert(trimmed(root, 1, false) == root);
    }
}

/// A gap at the end of a path does not count.
pub proof fn law_path_end_has_no_effect(
    path: String,
    gap: Seq<char>,
    longer: String,
    parent: String,
    parent_of_longer: String,
)
    requires
        call_ensures(parent_dir, (&path,), parent),
        call_ensures(parent_dir, (&longer,), parent_of_longer),
        longer@ == path@ + gap,
        is_plain(path@),
        is_trim(path@),
        is_gap(gap),
    ensures
        parent_of_longer@ == parent@,
{
    let start: int = if path@[0] == '/' {
        1
    } else {
        0
    };
    lemma_plain_is_portable(path@);
    assert(is_plain(longer@)) by {
        assert forall|i: int| 0 <= i < longer@.len() implies longer@[i] != '\\' && longer@[i]
            != ':' by {
            if i < path@.len() {
                assert(longer@[i] == path@[i]);
            } else {
                assert(longer@[i] == gap[i - path@.len()]);
            }
        }
        assert(path@.last() == path@[path@.len() - 1]);
        assert(longer@[0] == path@[0]);
        if path@.len() >= 2 {
            assert(longer@[1] == path@[1]);
        }
    }
    lemma_plain_is_portable(longer@);
    lemma_gap_is_trimmed(path@, gap, start);
    assert(trimmed(path@, start, false) == path@);
    assert(longer@[0] == path@[0]);
}

/// On every platform the parent is a front part of the path, and it is shorter
/// where the path ends in an ordinary character, unless the path may name a
/// share or a device.
pub proof fn law_parent_is_a_shorter_front_part(path: String, parent: String)
    requires
        call_ensures(parent_dir, (&path,), parent),
    ensures
        parent@.len() <= path@.len(),
        parent@ == path@.take(parent@.len() as int),
        path@.len() > 0 && !(path@[0] == '/' || path@[0] == '\\') && path@.last() != '/'
            && path@.last() != '\\' && path@.last() != '.' && path@.last() != ':' ==> parent@.len()
            < path@.len(),
{
    assert(parent@ =~= path@.take(parent@.len() as int));
    if path@.len() > 0 && !(path@[0] == '/' || path@[0] == '\\') && path@.last() != '/'
        && path@.last() != '\\' && path@.last() != '.' && path@.last() != ':' {
        lemma_shorter(path@, 0, false);
        lemma_shorter(path@, windows_root(path@), true);
    }
}

/// The stored list of processes is one and the same file for every user whose
/// home has no colon as its second character and does not start with two
/// separators.
pub proof fn law_every_home_has_one_config_file(home: String, dir: String, file: String)
    requires
        home@.len() >= 2 ==> home@[1] != ':' && !((home@[0] == '/' || home@[0] == '\\') && (home@[1]
            == '/' || home@[1] == '\\')),
        call_ensures(get_config_dir, (&home,), dir),
        call_ensures(get_procs_config_path, (&dir,), file),
    ensures
        dir@ == "/.rm2/"@,
        file@ == "/.rm2/processes.toml"@,
{
    law_config_path_is_fixed(home@, dir@, file@);
}

/// Of a home with a colon as its second character no more than these two are
/// kept, and what follows is the directory of the configuration in any case.
pub proof fn law_config_dir_keeps_a_drive_at_most(home: String, dir: String)
    requires
        home@.len() >= 2,
        home@[1] == ':',
        call_ensures(get_config_dir, (&home,), dir),
    ensures
        dir@ == "/.rm2/"@ || dir@ == home@.take(2) + "/.rm2/"@,
{
}

/// The list of processes stands in the directory: its path is that of the
/// directory, a separator unless the directory ends in one, and the file's name.
/// It ends in the name whatever the directory is.
pub proof fn law_config_file_stands_in_its_directory(dir: String, file: String)
    requires
        call_ensures(get_procs_config_path, (&dir,), file),
    ensures
        "processes.toml"@.is_suffix_of(file@),
        dir@.len() == 0 || dir@[0] != '\\' && dir@[0] != '/' ==> dir@.is_prefix_of(file@),
        dir@.len() == 0 || is_plain(dir@) && dir@.last() == '/' ==> file@ == dir@
            + "processes.toml"@,
        dir@.len() > 0 && is_plain(dir@) && dir@.last() != '/' ==> {
            ||| file@ == dir@ + seq!['/'] + "processes.toml"@
            ||| file@ == dir@ + seq!['\\'] + "processes.toml"@
        },
{
}

proof fn lemma_plain_is_portable(path: Seq<char>)
    requires
        is_plain(path),
    ensures
        is_portable(path),
{
}

/// The parent of an entry, by the conventions of Unix.
pub(crate) proof fn lemma_entry(dir: Seq<char>, gap: Seq<char>, name: Seq<char>)
    requires
        is_trim(dir),
        is_gap(gap),
        gap.last() == '/',
        is_entry(name),
    ensures
        unix_parent(dir + gap + name) == dir,
{
    let path = dir + gap + name;
    let start: int = if path[0] == '/' {
        1
    } else {
        0
    };
    let front = dir + gap;
    assert(front.last() == gap.last());
    lemma_entry_is_trimmed(front, name, start);
    lemma_through_entry(front, name, start);
    lemma_gap_is_trimmed(dir, gap, start);
    assert(trimmed(dir, start, false) == dir);
}

/// The parent of an entry of the root and of a bare name, by the conventions of
/// Unix.
pub(crate) proof fn lemma_top_level_entry(gap: Seq<char>, name: Seq<char>)
    requires
        is_gap(gap),
        gap.last() == '/',
        is_entry(name),
    ensures
        unix_parent(gap + name) == seq!['/'],
        unix_parent(name) == Seq::<char>::empty(),
{
    lemma_entry_is_trimmed(gap, name, 1);
    lemma_through_entry(gap, name, 1);
    let root = gap.take(1);
    let rest = gap.skip(1);
    assert(root =~= seq!['/']);
    assert(gap =~= root + rest);
    lemma_gap_is_trimmed(root, rest, 1);
    assert(trimmed(root, 1, false) == root);
    assert((gap + name)[0] == '/');
    let empty = Seq::<char>::empty();
    assert(empty + name =~= name);
    assert(name[0] != '/');
    lemma_entry_is_trimmed(empty, name, 0);
    lemma_through_entry(empty, name, 0);
    assert(trimmed(empty, 0, false) == empty);
}

/// What is trimmed off the end of a path includes a gap, or what is left of one.
proof fn lemma_gap_is_trimmed(front: Seq<char>, gap: Seq<char>, start: int)
    requires
        front.len() > 0,
        start <= front.len(),
        forall|i: int| 0 <= i < gap.len() ==> gap[i] == '/' || gap[i] == '.',
        forall|i: int| 0 < i < gap.len() && #[trigger] gap[i] == '.' ==> gap[i - 1] == '/',
        gap.len() > 0 && gap[0] == '.' ==> front.last() == '/',
    ensures
        trimmed(front + gap, start, false) == trimmed(front, start, false),
    decreases gap.len(),
{
    let path = front + gap;
    if gap.len() > 0 {
        let last = gap.len() - 1;
        assert(path.last() == gap[last]);
        assert(path.drop_last() =~= front + gap.drop_last());
        if gap[last] == '.' {
            if last > 0 {
                assert(path[path.len() - 2] == gap[last - 1]);
            } else {
                assert(path[path.len() - 2] == front.last());
            }
        }
        lemma_gap_is_trimmed(front, gap.drop_last(), start);
    } else {
        assert(path =~= front);
    }
}

proof fn lemma_entry_is_trimmed(front: Seq<char>, name: Seq<char>, start: int)
    requires
        is_entry(name),
    ensures
        trimmed(front + name, start, false) == front + name,
{
    let path = front + name;
    assert(path.last() == name.last());
    assert(name.last() == name[name.len() - 1]);
    if name.last() == '.' {
        if name.len() == 1 {
            assert(name =~= seq!['.']);
        }
        assert(path[path.len() - 2] == name[name.len() - 2]);
    }
}

proof fn lemma_through_entry(front: Seq<char>, name: Seq<char>, start: int)
    requires
        forall|i: int| 0 <= i < name.len() ==> name[i] != '/',
        front.len() == 0 || front.last() == '/',
        start <= front.len(),
    ensures
        through_separator(front + name, start, false) == front,
    decreases name.len(),
{
    let path = front + name;
    if name.len() > 0 {
        assert(path.last() == name[name.len() - 1]);
        assert(path.drop_last() =~= front + name.drop_last());
        lemma_through_entry(front, name.drop_last(), start);
        if path.len() <= start {
            assert(path.len() > front.len());
        }
    } else {
        assert(path =~= front);
    }
}

proof fn lemma_shorter(path: Seq<char>, start: int, windows: bool)
    requires
        path.len() > start,
        path.len() > 0,
        path.last() != '/',
        path.last() != '\\',
        path.last() != '.',
    ensures
        parent_behind(path, start, windows).len() < path.len(),
{
    assert(trimmed(path, start, windows) == path);
    lemma_not_longer(path.drop_last(), start, windows);
    lemma_not_longer(through_separator(path, start, windows), start, windows);
}

proof fn lemma_not_longer(path: Seq<char>, start: int, windows: bool)
    ensures
        trimmed(path, start, windows).len() <= path.len(),
        through_separator(path, start, windows).len() <= path.len(),
    decreases path.len(),
{
    if path.len() > 0 {
        lemma_not_longer(path.drop_last(), start, windows);
    }
}

} // verus!
