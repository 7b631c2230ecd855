//! Platform-specific library file naming and artifact paths.
//!
//! A watched library file is named `{prefix}{name}.{ext}` and each loaded
//! artifact `{prefix}{name}-hot-{generation}.{ext}`, where prefix and
//! extension come from a fixed per-platform table.

use vstd::prelude::*;

verus! {

/// The target operating system, which decides the shared-library file
/// prefix and extension.
#[derive(Clone, Copy, Debug, PartialEq, Eq, Structural)]
pub enum Platform {
    MacOs,
    Linux,
    Windows,
}

/// The file-name prefix for shared libraries on `p`.
pub open spec fn platform_prefix(p: Platform) -> Seq<char> {
    match p {
        Platform::MacOs => seq!['l', 'i', 'b'],
        Platform::Linux => seq!['l', 'i', 'b'],
        Platform::Windows => Seq::empty(),
    }
}

/// The file-name extension for shared libraries on `p`, without the dot.
pub open spec fn platform_extension(p: Platform) -> Seq<char> {
    match p {
        Platform::MacOs => seq!['d', 'y', 'l', 'i', 'b'],
        Platform::Linux => seq!['s', 'o'],
        Platform::Windows => seq!['d', 'l', 'l'],
    }
}

/// The shared-library prefix of `p` as a string slice.
pub fn prefix_str(p: Platform) -> (r: &'static str)
    ensures
        r@ == platform_prefix(p),
{
    proof {
        reveal_strlit("lib");
        reveal_strlit("");
    }
    match p {
        Platform::MacOs => "lib",
        Platform::Linux => "lib",
        Platform::Windows => "",
    }
}

/// The shared-library extension of `p` as a string slice.
pub fn extension_str(p: Platform) -> (r: &'static str)
    ensures
        r@ == platform_extension(p),
{
    proof {
        reveal_strlit("dylib");
        reveal_strlit("so");
        reveal_strlit("dll");
    }
    match p {
        Platform::MacOs => "dylib",
        Platform::Linux => "so",
        Platform::Windows => "dll",
    }
}

/// The decimal digit character for a value in `0 ..= 9`.
pub open spec fn decimal_digit(d: int) -> char {
    if d == 0 {
        '0'
    } else if d == 1 {
        '1'
    } else if d == 2 {
        '2'
    } else if d == 3 {
        '3'
    } else if d == 4 {
        '4'
    } else if d == 5 {
        '5'
    } else if d == 6 {
        '6'
    } else if d == 7 {
        '7'
    } else if d == 8 {
        '8'
    } else {
        '9'
    }
}

/// The decimal rendering of `n`, without a sign and without leading zeros
/// (except for `n == 0`, rendered as "0").
pub open spec fn decimal_string(n: nat) -> Seq<char>
    decreases n,
{
    if n < 10 {
        seq![decimal_digit(n as int)]
    } else {
        decimal_string(n / 10) + seq![decimal_digit((n % 10) as int)]
    }
}

/// The digit character of `d`, which must be below ten, as a string slice.
fn decimal_digit_str(d: u64) -> (r: &'static str)
    requires
        d < 10,
    ensures
        r@ == seq![decimal_digit(d as int)],
{
    proof {
        reveal_strlit("0");
        reveal_strlit("1");
        reveal_strlit("2");
        reveal_strlit("3");
        reveal_strlit("4");
        reveal_strlit("5");
        reveal_strlit("6");
        reveal_strlit("7");
        reveal_strlit("8");
        reveal_strlit("9");
    }
    match d {
        0 => "0",
        1 => "1",
        2 => "2",
        3 => "3",
        4 => "4",
        5 => "5",
        6 => "6",
        7 => "7",
        8 => "8",
        _ => "9",
    }
}

/// Renders `n` in decimal.
pub fn decimal(n: u64) -> (s: String)
    ensures
        s@ == decimal_string(n as nat),
    decreases n,
{
    let last = decimal_digit_str(n % 10);
    if n < 10 {
        String::from_str(last)
    } else {
        let mut s = decimal(n / 10);
        s.append(last);
        s
    }
}

/// The file name of the watched library for `name` on platform `p`:
/// `{prefix}{name}.{ext}`.
pub open spec fn lib_file_name(p: Platform, name: Seq<char>) -> Seq<char> {
    platform_prefix(p) + name + seq!['.'] + platform_extension(p)
}

/// The file name of the loaded artifact of generation `generation` for
/// `name` on platform `p`: `{prefix}{name}-hot-{generation}.{ext}`.
pub open spec fn artifact_file_name(p: Platform, name: Seq<char>, generation: nat) -> Seq<char> {
    platform_prefix(p) + name + "-hot-"@ + decimal_string(generation) + seq!['.']
        + platform_extension(p)
}

/// `file` placed inside `dir`, joined with a slash.
pub open spec fn join_path(dir: Seq<char>, file: Seq<char>) -> Seq<char> {
    dir + seq!['/'] + file
}

/// The watched library path and the generation-`load_counter` artifact path
/// for the library `lib_name` inside `lib_dir`.
pub fn watched_and_loaded_library_paths(
    lib_dir: &str,
    lib_name: &str,
    load_counter: u64,
    platform: Platform,
) -> (r: (String, String))
    ensures
        r.0@ == join_path(lib_dir@, lib_file_name(platform, lib_name@)),
        r.1@ == join_path(lib_dir@, artifact_file_name(platform, lib_name@, load_counter as nat)),
{
    proof {
        reveal_strlit("/");
        reveal_strlit(".");
        reveal_strlit("-hot-");
    }
    let prefix = prefix_str(platform);
    let ext = extension_str(platform);

    let mut watched = String::from_str(lib_dir);
    watched.append("/");
    watched.append(prefix);
    watched.append(lib_name);
    watched.append(".");
    watched.append(ext);

    let mut loaded = String::from_str(lib_dir);
    loaded.append("/");
    loaded.append(prefix);
    loaded.append(lib_name);
    loaded.append("-hot-");
    let generation = decimal(load_counter);
    loaded.append(generation.as_str());
    loaded.append(".");
    loaded.append(ext);

    (watched, loaded)
}

/// Whether `p` contains a directory separator.
pub open spec fn has_dir_sep(p: Seq<char>) -> bool
    decreases p.len(),
{
    if p.len() == 0 {
        false
    } else if p.last() == '/' {
        true
    } else {
        has_dir_sep(p.drop_last())
    }
}

/// `p` truncated just before its last directory separator. Meaningful only
/// when `has_dir_sep(p)`.
pub open spec fn parent_dir(p: Seq<char>) -> Seq<char>
    decreases p.len(),
{
    if p.len() == 0 {
        p
    } else if p.last() == '/' {
        p.drop_last()
    } else {
        parent_dir(p.drop_last())
    }
}

proof fn lemma_parent_dir_shorter(p: Seq<char>)
    requires
        has_dir_sep(p),
    ensures
        parent_dir(p).len() < p.len(),
    decreases p.len(),
{
    if p.last() != '/' {
        lemma_parent_dir_shorter(p.drop_last());
    }
}

/// `p` followed by its parent directories, outermost last: the directories
/// in which a relative path is searched, starting from `p`.
pub open spec fn ancestor_dirs(p: Seq<char>) -> Seq<Seq<char>>
    decreases p.len(),
    via ancestor_dirs_decreases
{
    if !has_dir_sep(p) {
        seq![p]
    } else {
        seq![p] + ancestor_dirs(parent_dir(p))
    }
}

#[via_fn]
proof fn ancestor_dirs_decreases(p: Seq<char>) {
    if has_dir_sep(p) {
        lemma_parent_dir_shorter(p);
    }
}

proof fn lemma_no_sep(p: Seq<char>)
    requires
        forall|i: int| 0 <= i < p.len() ==> p[i] != '/',
    ensures
        !has_dir_sep(p),
    decreases p.len(),
{
    if p.len() > 0 {
        lemma_no_sep(p.drop_last());
    }
}

proof fn lemma_last_sep(p: Seq<char>, k: int)
    requires
        0 <= k < p.len(),
        p[k] == '/',
        forall|i: int| k < i < p.len() ==> p[i] != '/',
    ensures
        has_dir_sep(p),
        parent_dir(p) == p.subrange(0, k),
    decreases p.len(),
{
    if k == p.len() - 1 {
        assert(p.drop_last() =~= p.subrange(0, k));
    } else {
        lemma_last_sep(p.drop_last(), k);
        assert(p.drop_last().subrange(0, k) =~= p.subrange(0, k));
    }
}

/// `file` joined under `dir` with a slash.
pub fn join_str(dir: &str, file: &str) -> (r: String)
    ensures
        r@ == join_path(dir@, file@),
{
    proof {
        reveal_strlit("/");
    }
    let mut r = String::from_str(dir);
    r.append("/");
    r.append(file);
    r
}

/// The index of the last `/` in `cur`, if any.
fn last_sep_index(cur: &str) -> (r: Option<usize>)
    ensures
        match r {
            Some(k) => {
                &&& k < cur@.len()
                &&& cur@[k as int] == '/'
                &&& forall|i: int| k < i < cur@.len() ==> cur@[i] != '/'
            },
            None => forall|i: int| 0 <= i < cur@.len() ==> cur@[i] != '/',
        },
{
    let n = cur.unicode_len();
    let mut j = n;
    while j > 0
        invariant
            j <= n,
            n == cur@.len(),
            forall|i: int| j <= i < cur@.len() ==> cur@[i] != '/',
        decreases j,
    {
        if cur.get_char(j - 1) == '/' {
            return Some(j - 1);
        }
        j = j - 1;
    }
    None
}

/// The paths at which a relative `file` is searched: `file` joined in turn
/// under `cwd` and under each of its parent directories.
pub fn ancestor_search_paths(cwd: &str, file: &str) -> (r: Vec<String>)
    ensures
        r@.len() == ancestor_dirs(cwd@).len(),
        forall|i: int|
            0 <= i < r@.len() ==> r@[i]@ == join_path(ancestor_dirs(cwd@)[i], file@),
{
    let mut r: Vec<String> = Vec::new();
    let mut cur: &str = cwd;
    let ghost mut done: Seq<Seq<char>> = Seq::empty();
    loop
        invariant_except_break
            ancestor_dirs(cwd@) == done + ancestor_dirs(cur@),
        invariant
            r@.len() == done.len(),
            forall|i: int|
                0 <= i < done.len() ==> r@[i]@ == join_path(done[i], file@),
        ensures
            r@.len() == ancestor_dirs(cwd@).len(),
            forall|i: int|
                0 <= i < r@.len() ==> r@[i]@ == join_path(ancestor_dirs(cwd@)[i], file@),
        decreases cur@.len(),
    {
        r.push(join_str(cur, file));
        let ghost prev = done;
        proof {
            done = done.push(cur@);
            assert(done =~= prev + seq![cur@]);
        }
        match last_sep_index(cur) {
            None => {
                proof {
                    lemma_no_sep(cur@);
                    assert(ancestor_dirs(cwd@) =~= done);
                }
                break;
            },
            Some(k) => {
                proof {
                    lemma_last_sep(cur@, k as int);
                    assert(done + ancestor_dirs(parent_dir(cur@)) =~= prev + ancestor_dirs(
                        cur@,
                    ));
                }
                cur = cur.substring_char(0, k);
            },
        }
    }
    r
}

} // verus!
