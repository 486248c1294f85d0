//! Where to look for Discord's IPC socket: the temporary directories named by
//! the environment, the places Discord and its flavours put the socket under
//! them, and path joining and comparison as `std::path` does them on Unix.

use vstd::prelude::*;
use vstd::string::*;
use crate::presence::opt_view;
use crate::text::{decimal, decimal_string};

verus! {

/// The segments of a path that count for comparison: the non-empty ones
/// other than ".", gathered while reading the path from left to right.
/// Returns the segments completed so far and the one being read.
pub open spec fn scan_segments(s: Seq<char>) -> (Seq<Seq<char>>, Seq<char>)
    decreases s.len(),
{
    if s.len() == 0 {
        (seq![], seq![])
    } else {
        let (done, cur) = scan_segments(s.drop_last());
        if s.last() == '/' {
            (keep_segment(done, cur), seq![])
        } else {
            (done, cur.push(s.last()))
        }
    }
}

/// `done` with `seg` appended, unless `seg` is empty or ".".
pub open spec fn keep_segment(done: Seq<Seq<char>>, seg: Seq<char>) -> Seq<Seq<char>> {
    if seg.len() == 0 || seg == seq!['.'] {
        done
    } else {
        done.push(seg)
    }
}

/// The named segments of path `s`: its segments between slashes, without the
/// empty ones and without ".".
pub open spec fn path_segments(s: Seq<char>) -> Seq<Seq<char>> {
    keep_segment(scan_segments(s).0, scan_segments(s).1)
}

/// The path starts at the root.
pub open spec fn has_root(s: Seq<char>) -> bool {
    s.len() > 0 && s[0] == '/'
}

/// The relative path starts with a "." segment, which counts as a component.
pub open spec fn starts_at_cur_dir(s: Seq<char>) -> bool {
    !has_root(s) && s.len() > 0 && s[0] == '.' && (s.len() == 1 || s[1] == '/')
}

/// What `std::path` compares of a Unix path: whether it has a root, whether
/// it starts with ".", and its named segments.
pub open spec fn path_key(s: Seq<char>) -> (bool, bool, Seq<Seq<char>>) {
    (has_root(s), starts_at_cur_dir(s), path_segments(s))
}

/// Two paths are equal as `std::path::Path`s on Unix (same components).
pub open spec fn same_path(a: Seq<char>, b: Seq<char>) -> bool {
    path_key(a) == path_key(b)
}

/// The components of a path, as compared by `same_path`.
struct PathKey {
    root: bool,
    cur_dir: bool,
    segments: Vec<Vec<char>>,
}

/// The characters of each segment.
pub open spec fn segs_view(v: Seq<Vec<char>>) -> Seq<Seq<char>> {
    v.map_values(|x: Vec<char>| x@)
}

impl PathKey {
    spec fn key(&self) -> (bool, bool, Seq<Seq<char>>) {
        (self.root, self.cur_dir, segs_view(self.segments@))
    }
}

/// Whether `seg` is the segment ".".
fn is_dot(seg: &Vec<char>) -> (r: bool)
    ensures
        r == (seg@ == seq!['.']),
{
    let r = seg.len() == 1 && seg[0] == '.';
    assert(r ==> seg@ =~= seq!['.']);
    r
}

/// Appends `seg` to `done` unless it is empty or ".".
fn keep_segment_exec(done: &mut Vec<Vec<char>>, seg: Vec<char>)
    ensures
        segs_view(final(done)@) == keep_segment(segs_view(old(done)@), seg@),
{
    if seg.len() != 0 && !is_dot(&seg) {
        done.push(seg);
        assert(segs_view(final(done)@) =~= segs_view(old(done)@).push(seg@));
    }
}

/// Splits a path into the components that `same_path` compares.
fn path_key_of(s: &str) -> (k: PathKey)
    ensures
        k.key() == path_key(s@),
{
    let n = s.unicode_len();
    let mut done: Vec<Vec<char>> = Vec::new();
    let mut cur: Vec<char> = Vec::new();
    let mut i: usize = 0;
    while i < n
        invariant
            n == s@.len(),
            i <= n,
            (segs_view(done@), cur@) == scan_segments(s@.take(i as int)),
        decreases n - i,
    {
        let c = s.get_char(i);
        proof {
            assert(s@.take(i + 1).drop_last() =~= s@.take(i as int));
            assert(s@.take(i + 1).last() == c);
        }
        if c == '/' {
            let seg = cur;
            cur = Vec::new();
            keep_segment_exec(&mut done, seg);
        } else {
            cur.push(c);
        }
        i = i + 1;
    }
    assert(s@.take(n as int) =~= s@);
    keep_segment_exec(&mut done, cur);
    let root = n > 0 && s.get_char(0) == '/';
    let cur_dir = !root && n > 0 && s.get_char(0) == '.' && (n == 1 || s.get_char(1) == '/');
    PathKey { root, cur_dir, segments: done }
}

/// Whether two character vectors are equal.
fn same_chars(a: &Vec<char>, b: &Vec<char>) -> (r: bool)
    ensures
        r == (a@ == b@),
{
    if a.len() != b.len() {
        return false;
    }
    let n = a.len();
    for i in 0..n
        invariant
            n == a@.len(),
            n == b@.len(),
            forall|j: int| 0 <= j < i ==> a@[j] == b@[j],
    {
        if a[i] != b[i] {
            return false;
        }
    }
    assert(a@ =~= b@);
    true
}

/// Whether two path keys are equal.
fn same_key(a: &PathKey, b: &PathKey) -> (r: bool)
    ensures
        r == (a.key() == b.key()),
{
    if a.root != b.root || a.cur_dir != b.cur_dir || a.segments.len() != b.segments.len() {
        assert(a.segments.len() != b.segments.len() ==> segs_view(a.segments@).len() != segs_view(
            b.segments@,
        ).len());
        return false;
    }
    let n = a.segments.len();
    for i in 0..n
        invariant
            n == a.segments@.len(),
            n == b.segments@.len(),
            forall|j: int| 0 <= j < i ==> a.segments@[j]@ == b.segments@[j]@,
    {
        if !same_chars(&a.segments[i], &b.segments[i]) {
            assert(segs_view(a.segments@)[i as int] != segs_view(b.segments@)[i as int]);
            return false;
        }
    }
    assert(segs_view(a.segments@) =~= segs_view(b.segments@));
    true
}

/// Whether `a` and `b` name the same path, as `std::path::Path` compares
/// them on Unix: repeated slashes, a trailing slash and "." segments (other
/// than a leading one) make no difference.
pub fn paths_equal(a: &str, b: &str) -> (r: bool)
    ensures
        r == same_path(a@, b@),
{
    let ka = path_key_of(a);
    let kb = path_key_of(b);
    same_key(&ka, &kb)
}

/// Reading a slash then `b` after `a`: the segments of `a` are complete, and
/// `b` is read as on its own after them.
proof fn lemma_scan_after_slash(a: Seq<char>, b: Seq<char>)
    ensures
        scan_segments(a + seq!['/'] + b) == (
            path_segments(a) + scan_segments(b).0,
            scan_segments(b).1,
        ),
    decreases b.len(),
{
    let s = a + seq!['/'] + b;
    if b.len() == 0 {
        assert(s.drop_last() =~= a);
        assert(path_segments(a) + scan_segments(b).0 =~= path_segments(a));
    } else {
        lemma_scan_after_slash(a, b.drop_last());
        assert(s.drop_last() =~= a + seq!['/'] + b.drop_last());
        let (d, c) = scan_segments(b.drop_last());
        let p = path_segments(a);
        if b.last() == '/' {
            assert(keep_segment(p + d, c) =~= p + keep_segment(d, c));
        } else {
            assert(scan_segments(b) == (d, c.push(b.last())));
        }
    }
}

/// The named segments of `a`, a slash, then `b` are those of `a` followed by
/// those of `b`.
pub proof fn lemma_segments_concat(a: Seq<char>, b: Seq<char>)
    ensures
        path_segments(a + seq!['/'] + b) == path_segments(a) + path_segments(b),
{
    lemma_scan_after_slash(a, b);
    let (d, c) = scan_segments(b);
    assert(keep_segment(path_segments(a) + d, c) =~= path_segments(a) + keep_segment(d, c));
}

/// Text without a slash is read as one unfinished segment.
proof fn lemma_scan_no_slash(seg: Seq<char>)
    requires
        forall|i: int| 0 <= i < seg.len() ==> seg[i] != '/',
    ensures
        scan_segments(seg) == (Seq::<Seq<char>>::empty(), seg),
    decreases seg.len(),
{
    if seg.len() > 0 {
        lemma_scan_no_slash(seg.drop_last());
        assert(seg.drop_last().push(seg.last()) =~= seg);
    }
}

/// A name without a slash, other than "" and ".", is one named segment.
pub proof fn lemma_single_segment(seg: Seq<char>)
    requires
        seg.len() > 0,
        seg != seq!['.'],
        forall|i: int| 0 <= i < seg.len() ==> seg[i] != '/',
    ensures
        path_segments(seg) == seq![seg],
{
    lemma_scan_no_slash(seg);
    assert(Seq::<Seq<char>>::empty().push(seg) =~= seq![seg]);
}

/// Adding a named segment below a path gives a different path, whatever the
/// path: every named segment counts in the comparison, not only the first.
pub proof fn lemma_extended_path_differs(a: Seq<char>, seg: Seq<char>)
    requires
        seg.len() > 0,
        seg != seq!['.'],
        forall|i: int| 0 <= i < seg.len() ==> seg[i] != '/',
    ensures
        path_segments(a + seq!['/'] + seg) == path_segments(a).push(seg),
        !same_path(a + seq!['/'] + seg, a),
{
    lemma_segments_concat(a, seg);
    lemma_single_segment(seg);
    assert(path_segments(a) + seq![seg] =~= path_segments(a).push(seg));
}

/// A trailing slash does not change the path a non-empty path names.
pub proof fn lemma_trailing_slash(s: Seq<char>)
    requires
        s.len() > 0,
    ensures
        same_path(s.push('/'), s),
{
    let t = s.push('/');
    assert(t.drop_last() =~= s);
    assert(t[0] == s[0]);
    if s.len() == 1 {
        assert(starts_at_cur_dir(t) == starts_at_cur_dir(s));
    } else {
        assert(t[1] == s[1]);
    }
}

/// Some entry of `dirs` names the same path as `d`.
pub open spec fn contains_path(dirs: Seq<Seq<char>>, d: Seq<char>) -> bool {
    exists|i: int| 0 <= i < dirs.len() && same_path(#[trigger] dirs[i], d)
}

/// `dirs` with `d` appended, unless it already names that path.
pub open spec fn add_dir(dirs: Seq<Seq<char>>, d: Seq<char>) -> Seq<Seq<char>> {
    if contains_path(dirs, d) {
        dirs
    } else {
        dirs.push(d)
    }
}

/// The directories named by the given environment values, in order, each
/// path once.
pub open spec fn collect_dirs(values: Seq<Option<Seq<char>>>) -> Seq<Seq<char>>
    decreases values.len(),
{
    if values.len() == 0 {
        seq![]
    } else {
        let prev = collect_dirs(values.drop_last());
        match values.last() {
            Some(d) => add_dir(prev, d),
            None => prev,
        }
    }
}

/// The directories searched for the IPC socket: those named by the
/// environment values, then "/tmp", each path once.
pub open spec fn base_dirs_spec(values: Seq<Option<Seq<char>>>) -> Seq<Seq<char>> {
    add_dir(collect_dirs(values), "/tmp"@)
}

/// The characters of each string.
pub open spec fn strings_view(v: Seq<String>) -> Seq<Seq<char>> {
    v.map_values(|x: String| x@)
}

/// The characters of each optional string.
pub open spec fn opt_strings_view(v: Seq<Option<String>>) -> Seq<Option<Seq<char>>> {
    v.map_values(|x: Option<String>| opt_view(x))
}

/// Appends `d` to `dirs` unless some entry already names the same path.
fn add_dir_exec(dirs: &mut Vec<String>, d: &str)
    ensures
        strings_view(final(dirs)@) == add_dir(strings_view(old(dirs)@), d@),
{
    let n = dirs.len();
    let ghost view = strings_view(dirs@);
    for i in 0..n
        invariant
            n == dirs@.len(),
            view == strings_view(dirs@),
            dirs@ == old(dirs)@,
            forall|j: int| 0 <= j < i ==> !same_path(#[trigger] view[j], d@),
    {
        if paths_equal(dirs[i].as_str(), d) {
            assert(same_path(view[i as int], d@));
            return;
        }
    }
    dirs.push(String::from_str(d));
    assert(strings_view(final(dirs)@) =~= view.push(d@));
}

/// The directories to search for Discord's IPC socket. `env_values` holds the
/// values of the environment variables consulted, in order (`None` where a
/// variable is unset); "/tmp" comes last. A path already listed (as
/// `std::path` compares paths) is not listed again.
pub fn base_dirs(env_values: &Vec<Option<String>>) -> (dirs: Vec<String>)
    ensures
        strings_view(dirs@) == base_dirs_spec(opt_strings_view(env_values@)),
{
    let mut dirs: Vec<String> = Vec::new();
    let n = env_values.len();
    let ghost values = opt_strings_view(env_values@);
    for i in 0..n
        invariant
            n == env_values@.len(),
            values == opt_strings_view(env_values@),
            strings_view(dirs@) == collect_dirs(values.take(i as int)),
    {
        proof {
            assert(values.take(i + 1).drop_last() =~= values.take(i as int));
        }
        match &env_values[i] {
            Some(v) => add_dir_exec(&mut dirs, v.as_str()),
            None => {},
        }
    }
    assert(values.take(n as int) =~= values);
    add_dir_exec(&mut dirs, "/tmp");
    dirs
}

/// `add_dir` keeps the entries pairwise different paths and contains `d`
/// afterwards.
proof fn lemma_add_dir(dirs: Seq<Seq<char>>, d: Seq<char>)
    requires
        forall|i: int, j: int|
            0 <= i < j < dirs.len() ==> !same_path(#[trigger] dirs[i], #[trigger] dirs[j]),
    ensures
        forall|i: int, j: int|
            0 <= i < j < add_dir(dirs, d).len() ==> !same_path(
                #[trigger] add_dir(dirs, d)[i],
                #[trigger] add_dir(dirs, d)[j],
            ),
        contains_path(add_dir(dirs, d), d),
        add_dir(dirs, d).len() <= dirs.len() + 1,
        forall|i: int| 0 <= i < dirs.len() ==> add_dir(dirs, d)[i] == dirs[i],
{
    if !contains_path(dirs, d) {
        let r = dirs.push(d);
        assert(same_path(r[dirs.len() as int], d));
    }
}

/// The directories collected so far are pairwise different paths, at most
/// one per value.
proof fn lemma_collect_dirs(values: Seq<Option<Seq<char>>>)
    ensures
        forall|i: int, j: int|
            0 <= i < j < collect_dirs(values).len() ==> !same_path(
                #[trigger] collect_dirs(values)[i],
                #[trigger] collect_dirs(values)[j],
            ),
        collect_dirs(values).len() <= values.len(),
    decreases values.len(),
{
    if values.len() > 0 {
        lemma_collect_dirs(values.drop_last());
        match values.last() {
            Some(d) => lemma_add_dir(collect_dirs(values.drop_last()), d),
            None => {},
        }
    }
}

/// The directories collected cover every value given, and hold nothing else;
/// what was collected before is kept, in place.
proof fn lemma_collect_dirs_cover(values: Seq<Option<Seq<char>>>)
    ensures
        forall|i: int|
            0 <= i < values.len() && #[trigger] values[i] is Some ==> contains_path(
                collect_dirs(values),
                values[i].unwrap(),
            ),
        forall|j: int|
            0 <= j < collect_dirs(values).len() ==> exists|i: int|
                0 <= i < values.len() && #[trigger] values[i] == Some(
                    #[trigger] collect_dirs(values)[j],
                ),
    decreases values.len(),
{
    if values.len() > 0 {
        let prev_values = values.drop_last();
        lemma_collect_dirs_cover(prev_values);
        lemma_collect_dirs(prev_values);
        let prev = collect_dirs(prev_values);
        let cur = collect_dirs(values);
        assert forall|i: int|
            0 <= i < values.len() && #[trigger] values[i] is Some implies contains_path(
            cur,
            values[i].unwrap(),
        ) by {
            match values.last() {
                Some(d) => lemma_add_dir(prev, d),
                None => {},
            }
            if i < values.len() - 1 {
                assert(prev_values[i] == values[i]);
                let k = choose|k: int| 0 <= k < prev.len() && same_path(#[trigger] prev[k], values[i].unwrap());
                assert(cur[k] == prev[k]);
            }
        }
        assert forall|j: int| 0 <= j < cur.len() implies exists|i: int|
            0 <= i < values.len() && #[trigger] values[i] == Some(#[trigger] cur[j]) by {
            match values.last() {
                Some(d) => lemma_add_dir(prev, d),
                None => {},
            }
            if j < prev.len() {
                let i = choose|i: int| 0 <= i < prev_values.len() && #[trigger] prev_values[i] == Some(prev[j]);
                assert(values[i] == prev_values[i]);
                assert(cur[j] == prev[j]);
            } else {
                assert(values[values.len() - 1] == Some(cur[j]));
            }
        }
    }
}

/// Every directory named by the environment is searched (as itself or as an
/// entry naming the same path), "/tmp" is searched, and nothing else is.
pub proof fn lemma_base_dirs_cover(values: Seq<Option<Seq<char>>>)
    ensures
        forall|i: int|
            0 <= i < values.len() && #[trigger] values[i] is Some ==> contains_path(
                base_dirs_spec(values),
                values[i].unwrap(),
            ),
        contains_path(base_dirs_spec(values), "/tmp"@),
        forall|j: int|
            0 <= j < base_dirs_spec(values).len() ==> base_dirs_spec(values)[j] == "/tmp"@
                || exists|i: int|
                0 <= i < values.len() && #[trigger] values[i] == Some(
                    #[trigger] base_dirs_spec(values)[j],
                ),
{
    lemma_collect_dirs_cover(values);
    lemma_collect_dirs(values);
    let prev = collect_dirs(values);
    lemma_add_dir(prev, "/tmp"@);
    let out = base_dirs_spec(values);
    assert forall|i: int|
        0 <= i < values.len() && #[trigger] values[i] is Some implies contains_path(
        out,
        values[i].unwrap(),
    ) by {
        let k = choose|k: int| 0 <= k < prev.len() && same_path(#[trigger] prev[k], values[i].unwrap());
        assert(out[k] == prev[k]);
    }
    assert forall|j: int| 0 <= j < out.len() implies out[j] == "/tmp"@ || exists|i: int|
        0 <= i < values.len() && #[trigger] values[i] == Some(#[trigger] out[j]) by {
        if j < prev.len() {
            assert(out[j] == prev[j]);
        }
    }
}

/// The search directories name pairwise different paths, include "/tmp",
/// and number at most one more than the environment values.
pub proof fn lemma_base_dirs(values: Seq<Option<Seq<char>>>)
    ensures
        forall|i: int, j: int|
            0 <= i < j < base_dirs_spec(values).len() ==> !same_path(
                #[trigger] base_dirs_spec(values)[i],
                #[trigger] base_dirs_spec(values)[j],
            ),
        contains_path(base_dirs_spec(values), "/tmp"@),
        base_dirs_spec(values).len() <= values.len() + 1,
{
    lemma_collect_dirs(values);
    lemma_add_dir(collect_dirs(values), "/tmp"@);
}

/// `base` joined with `rel` as `std::path::Path::join` does on Unix: an
/// absolute `rel` replaces `base`; otherwise a slash separates them unless
/// `base` is empty or already ends with one.
pub open spec fn join_spec(base: Seq<char>, rel: Seq<char>) -> Seq<char> {
    if has_root(rel) {
        rel
    } else if base.len() > 0 && base.last() != '/' {
        base + seq!['/'] + rel
    } else {
        base + rel
    }
}

/// Joining a relative path appends its named segments to those of the base,
/// and an absolute one replaces the base.
pub proof fn lemma_join_segments(base: Seq<char>, rel: Seq<char>)
    ensures
        has_root(rel) ==> join_spec(base, rel) == rel,
        !has_root(rel) ==> path_segments(join_spec(base, rel)) == path_segments(base)
            + path_segments(rel),
{
    if !has_root(rel) {
        let empty = Seq::<char>::empty();
        assert(path_segments(empty) =~= Seq::<Seq<char>>::empty());
        if base.len() > 0 && base.last() != '/' {
            lemma_segments_concat(base, rel);
        } else if base.len() == 0 {
            assert(base + rel =~= rel);
            assert(path_segments(base) + path_segments(rel) =~= path_segments(rel));
        } else {
            let b = base.drop_last();
            assert(base =~= b + seq!['/'] + empty);
            assert(base + rel =~= b + seq!['/'] + rel);
            lemma_segments_concat(b, rel);
            lemma_segments_concat(b, empty);
            assert(path_segments(b) + path_segments(empty) =~= path_segments(b));
        }
    }
}

/// Joins `rel` onto `base` as `std::path::Path::join` does on Unix.
pub fn join_path(base: &str, rel: &str) -> (r: String)
    ensures
        r@ == join_spec(base@, rel@),
{
    let rn = rel.unicode_len();
    if rn > 0 && rel.get_char(0) == '/' {
        return String::from_str(rel);
    }
    let bn = base.unicode_len();
    let mut r = String::from_str(base);
    if bn > 0 && base.get_char(bn - 1) != '/' {
        proof {
            reveal_strlit("/");
        }
        r.append("/");
    }
    r.append(rel);
    proof {
        if bn > 0 && base@.last() != '/' {
            assert(r@ =~= base@ + seq!['/'] + rel@);
        }
    }
    r
}

/// Number of IPC sockets tried in each directory (`discord-ipc-0` to `discord-ipc-9`).
pub const SOCKETS_PER_DIR: usize = 10;

/// Number of known places under a base directory.
pub const KNOWN_PLACES: usize = 6;

/// The file name of the `i`-th Discord IPC socket.
pub open spec fn socket_name(i: nat) -> Seq<char> {
    "discord-ipc-"@ + decimal(i)
}

/// The places under a base directory where Discord, its Flatpak and Snap
/// packages and the Vesktop and Equibop clients put their IPC socket.
pub open spec fn known_place(k: int) -> Seq<char> {
    if k == 0 {
        ""@
    } else if k == 1 {
        "app/com.discordapp.Discord"@
    } else if k == 2 {
        "app/dev.vencord.Vesktop"@
    } else if k == 3 {
        "app/dev.equibop.equibop"@
    } else if k == 4 {
        "snap.discord"@
    } else {
        "snap.discord-canary"@
    }
}

/// The `k`-th known place.
fn known_place_str(k: usize) -> (r: &'static str)
    requires
        k < KNOWN_PLACES,
    ensures
        r@ == known_place(k as int),
{
    if k == 0 {
        ""
    } else if k == 1 {
        "app/com.discordapp.Discord"
    } else if k == 2 {
        "app/dev.vencord.Vesktop"
    } else if k == 3 {
        "app/dev.equibop.equibop"
    } else if k == 4 {
        "snap.discord"
    } else {
        "snap.discord-canary"
    }
}

/// The file name of the `i`-th Discord IPC socket.
pub fn socket_name_string(i: u64) -> (r: String)
    ensures
        r@ == socket_name(i as nat),
{
    let mut r = String::from_str("discord-ipc-");
    let d = decimal_string(i);
    r.append(d.as_str());
    r
}

/// The sockets to try in directory `dir`, in order: `dir/discord-ipc-0` to
/// `dir/discord-ipc-9`.
pub fn socket_candidates(dir: &str) -> (r: Vec<String>)
    ensures
        r@.len() == SOCKETS_PER_DIR,
        forall|i: int|
            0 <= i < SOCKETS_PER_DIR ==> (#[trigger] r@[i])@ == join_spec(dir@, socket_name(i as nat)),
{
    let mut r: Vec<String> = Vec::new();
    for i in 0..SOCKETS_PER_DIR
        invariant
            r@.len() == i,
            forall|j: int| 0 <= j < i ==> (#[trigger] r@[j])@ == join_spec(dir@, socket_name(j as nat)),
    {
        let name = socket_name_string(i as u64);
        r.push(join_path(dir, name.as_str()));
    }
    r
}

/// The sockets to try at the known places under `base`, in order: for each
/// known place, `discord-ipc-0` to `discord-ipc-9` in it.
pub fn known_socket_candidates(base: &str) -> (r: Vec<String>)
    ensures
        r@.len() == KNOWN_PLACES * SOCKETS_PER_DIR,
        forall|j: int|
            0 <= j < KNOWN_PLACES * SOCKETS_PER_DIR ==> (#[trigger] r@[j])@ == join_spec(
                join_spec(base@, known_place(j / 10)),
                socket_name((j % 10) as nat),
            ),
{
    let mut r: Vec<String> = Vec::new();
    for k in 0..KNOWN_PLACES
        invariant
            r@.len() == k * SOCKETS_PER_DIR,
            forall|j: int|
                0 <= j < k * SOCKETS_PER_DIR ==> (#[trigger] r@[j])@ == join_spec(
                    join_spec(base@, known_place(j / 10)),
                    socket_name((j % 10) as nat),
                ),
    {
        let place = join_path(base, known_place_str(k));
        let names = socket_candidates(place.as_str());
        let ghost before = r@;
        for i in 0..SOCKETS_PER_DIR
            invariant
                before.len() == k * SOCKETS_PER_DIR,
                k < KNOWN_PLACES,
                place@ == join_spec(base@, known_place(k as int)),
                names@.len() == SOCKETS_PER_DIR,
                forall|m: int|
                    0 <= m < SOCKETS_PER_DIR ==> (#[trigger] names@[m])@ == join_spec(
                        place@,
                        socket_name(m as nat),
                    ),
                r@.len() == before.len() + i,
                forall|j: int| 0 <= j < before.len() ==> r@[j] == before[j],
                forall|j: int|
                    0 <= j < before.len() + i ==> (#[trigger] r@[j])@ == join_spec(
                        join_spec(base@, known_place(j / 10)),
                        socket_name((j % 10) as nat),
                    ),
        {
            let c = names[i].clone();
            r.push(c);
            proof {
                let j = before.len() + i;
                assert(j / 10 == k as int) by (nonlinear_arith)
                    requires
                        j == k * 10 + i,
                        0 <= i < 10,
                ;
                assert(j % 10 == i as int) by (nonlinear_arith)
                    requires
                        j == k * 10 + i,
                        0 <= i < 10,
                ;
            }
        }
    }
    r
}

/// The named pipes to try on Windows, in order: `\\.\pipe\discord-ipc-0`
/// to `\\.\pipe\discord-ipc-9`.
pub fn pipe_candidates() -> (r: Vec<String>)
    ensures
        r@.len() == SOCKETS_PER_DIR,
        forall|i: int|
            0 <= i < SOCKETS_PER_DIR ==> (#[trigger] r@[i])@ == "\\\\.\\pipe\\"@ + socket_name(
                i as nat,
            ),
{
    let mut r: Vec<String> = Vec::new();
    for i in 0..SOCKETS_PER_DIR
        invariant
            r@.len() == i,
            forall|j: int|
                0 <= j < i ==> (#[trigger] r@[j])@ == "\\\\.\\pipe\\"@ + socket_name(j as nat),
    {
        let mut p = String::from_str("\\\\.\\pipe\\");
        let name = socket_name_string(i as u64);
        p.append(name.as_str());
        r.push(p);
    }
    r
}

/// The sockets to try in a Flatpak application directory `entry`:
/// `entry/xdg-run/discord-ipc-0` to `entry/xdg-run/discord-ipc-9`.
pub fn flatpak_socket_candidates(entry: &str) -> (r: Vec<String>)
    ensures
        r@.len() == SOCKETS_PER_DIR,
        forall|i: int|
            0 <= i < SOCKETS_PER_DIR ==> (#[trigger] r@[i])@ == join_spec(
                join_spec(entry@, "xdg-run"@),
                socket_name(i as nat),
            ),
{
    let dir = join_path(entry, "xdg-run");
    socket_candidates(dir.as_str())
}

} // verus!
