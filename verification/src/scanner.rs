//! Heuristic file classification and the bounded directory scan.
//!
//! Classification is a pure, deterministic function of the relative path
//! string, matched ASCII-case-insensitively: scaffolding and configuration
//! patterns are treated as noise and win over data and media extensions.

use vstd::prelude::*;
use vstd::string::StrSliceExecFns;
use vstd::string::StringExecFns;

use crate::text::{contains_ci, contains_ci_str, eq_ci, ext_is, ext_is_str, lower_code, to_chars};

verus! {

/// Directories deeper than this are not descended into.
pub const MAX_DEPTH: usize = 10;

/// At most this many files are collected by one scan.
pub const MAX_FILES: usize = 5000;

/// The path looks like website or application scaffolding: dependency and
/// asset directories, build artifacts, web fonts, or emoji bundles.
pub open spec fn is_scaffolding(p: Seq<char>) -> bool {
    ||| contains_ci(p, "node_modules"@)
    ||| contains_ci(p, "twemoji"@)
    ||| contains_ci(p, "/assets/"@)
    ||| contains_ci(p, "runtime."@)
    ||| contains_ci(p, "modules."@)
    ||| ext_is(p, "woff"@)
    ||| ext_is(p, "woff2"@)
    ||| ext_is(p, "eot"@)
    ||| ext_is(p, "ttf"@)
    ||| (ext_is(p, "svg"@) && contains_ci(p, "emoji"@))
}

/// The path looks like a configuration file: a dotfile, a config directory,
/// or an environment/ini/yaml extension.
pub open spec fn is_config(p: Seq<char>) -> bool {
    ||| (p.len() > 0 && lower_code(p[0]) == lower_code('.'))
    ||| contains_ci(p, ".config"@)
    ||| contains_ci(p, "config/"@)
    ||| ext_is(p, "env"@)
    ||| ext_is(p, "ini"@)
    ||| ext_is(p, "yaml"@)
    ||| ext_is(p, "yml"@)
}

/// The path looks like personal data: a document or data extension, or an
/// export/backup/data directory.
pub open spec fn is_personal(p: Seq<char>) -> bool {
    ||| ext_is(p, "json"@)
    ||| ext_is(p, "csv"@)
    ||| ext_is(p, "txt"@)
    ||| ext_is(p, "md"@)
    ||| ext_is(p, "doc"@)
    ||| ext_is(p, "docx"@)
    ||| ext_is(p, "pdf"@)
    ||| ext_is(p, "js"@)
    ||| contains_ci(p, "data/"@)
    ||| contains_ci(p, "export"@)
    ||| contains_ci(p, "backup"@)
}

/// The path has an image, audio or video extension.
pub open spec fn is_media(p: Seq<char>) -> bool {
    ||| ext_is(p, "jpg"@)
    ||| ext_is(p, "jpeg"@)
    ||| ext_is(p, "png"@)
    ||| ext_is(p, "gif"@)
    ||| ext_is(p, "mp4"@)
    ||| ext_is(p, "mp3"@)
    ||| ext_is(p, "wav"@)
}

/// The media rule only fires when the asset and emoji-bundle exclusions did
/// not already match.
pub open spec fn is_kept_media(p: Seq<char>) -> bool {
    is_media(p) && !contains_ci(p, "twemoji"@) && !contains_ci(p, "/assets/"@)
}

/// Category assigned to a path, by the fixed precedence order: scaffolding,
/// then config, then media, then personal data, else unknown.
pub open spec fn category_seq(p: Seq<char>) -> Seq<char> {
    if is_scaffolding(p) {
        "website_scaffolding"@
    } else if is_config(p) {
        "config"@
    } else if is_kept_media(p) {
        "media"@
    } else if is_personal(p) {
        "personal_data"@
    } else {
        "unknown"@
    }
}

/// Human-readable reason that goes with the category of `p`.
pub open spec fn reason_seq(p: Seq<char>) -> Seq<char> {
    if is_scaffolding(p) {
        "Appears to be website/app scaffolding"@
    } else if is_config(p) {
        "Appears to be configuration file"@
    } else if is_kept_media(p) {
        "User media file"@
    } else if is_personal(p) {
        "Potential personal data file"@
    } else {
        "Unknown file type"@
    }
}

/// Whether a path is recommended for ingestion: only media and personal-data
/// paths are, and never ones that matched the scaffolding or config rules.
pub open spec fn ingest_spec(p: Seq<char>) -> bool {
    !is_scaffolding(p) && !is_config(p) && (is_kept_media(p) || is_personal(p))
}

#[derive(Debug, Clone)]
pub struct FileRecommendation {
    pub path: String,
    pub absolute_path: String,
    pub should_ingest: bool,
    pub category: String,
    pub reason: String,
}

/// The fields of `rec` agree with the classification of the path it names,
/// relative to `root`.
pub open spec fn rec_wf(rec: FileRecommendation, root: Seq<char>) -> bool {
    &&& rec.absolute_path@ == root + "/"@ + rec.path@
    &&& rec.should_ingest == ingest_spec(rec.path@)
    &&& rec.category@ == category_seq(rec.path@)
    &&& rec.reason@ == reason_seq(rec.path@)
}

/// `rec` is the classification of `p` relative to `root`.
pub open spec fn rec_matches(rec: FileRecommendation, root: Seq<char>, p: Seq<char>) -> bool {
    rec.path@ == p && rec_wf(rec, root)
}

/// Concatenate `root`, a separator and `rel`.
fn join_path(root: &str, rel: &str) -> (s: String)
    ensures
        s@ == root@ + "/"@ + rel@,
{
    let mut s = root.to_owned();
    s.append("/");
    s.append(rel);
    s
}

/// Classify one relative path.
fn classify_path(root: &str, path: &str) -> (rec: FileRecommendation)
    ensures
        rec_matches(rec, root@, path@),
{
    let pv = to_chars(path);
    let scaffolding = contains_ci_str(&pv, "node_modules") || contains_ci_str(&pv, "twemoji")
        || contains_ci_str(&pv, "/assets/") || contains_ci_str(&pv, "runtime.")
        || contains_ci_str(&pv, "modules.") || ext_is_str(&pv, "woff") || ext_is_str(&pv, "woff2")
        || ext_is_str(&pv, "eot") || ext_is_str(&pv, "ttf") || (ext_is_str(&pv, "svg")
        && contains_ci_str(&pv, "emoji"));
    assert(scaffolding == is_scaffolding(path@));
    let config = (pv.len() > 0 && eq_ci(pv[0], '.')) || contains_ci_str(&pv, ".config")
        || contains_ci_str(&pv, "config/") || ext_is_str(&pv, "env") || ext_is_str(&pv, "ini")
        || ext_is_str(&pv, "yaml") || ext_is_str(&pv, "yml");
    assert(config == is_config(path@));
    let personal = ext_is_str(&pv, "json") || ext_is_str(&pv, "csv") || ext_is_str(&pv, "txt")
        || ext_is_str(&pv, "md") || ext_is_str(&pv, "doc") || ext_is_str(&pv, "docx")
        || ext_is_str(&pv, "pdf") || ext_is_str(&pv, "js") || contains_ci_str(&pv, "data/")
        || contains_ci_str(&pv, "export") || contains_ci_str(&pv, "backup");
    assert(personal == is_personal(path@));
    let media = ext_is_str(&pv, "jpg") || ext_is_str(&pv, "jpeg") || ext_is_str(&pv, "png")
        || ext_is_str(&pv, "gif") || ext_is_str(&pv, "mp4") || ext_is_str(&pv, "mp3")
        || ext_is_str(&pv, "wav");
    assert(media == is_media(path@));

    let should_ingest: bool;
    let category: &str;
    let reason: &str;
    if scaffolding {
        should_ingest = false;
        category = "website_scaffolding";
        reason = "Appears to be website/app scaffolding";
    } else if config {
        should_ingest = false;
        category = "config";
        reason = "Appears to be configuration file";
    } else if media && !contains_ci_str(&pv, "twemoji") && !contains_ci_str(&pv, "/assets/") {
        should_ingest = true;
        category = "media";
        reason = "User media file";
    } else if personal {
        should_ingest = true;
        category = "personal_data";
        reason = "Potential personal data file";
    } else {
        should_ingest = false;
        category = "unknown";
        reason = "Unknown file type";
    }

    FileRecommendation {
        path: path.to_owned(),
        absolute_path: join_path(root, path),
        should_ingest,
        category: category.to_owned(),
        reason: reason.to_owned(),
    }
}

/// Classify every path in `file_tree` relative to `root`.
pub fn classify_files(root: &str, file_tree: &Vec<String>) -> (recs: Vec<FileRecommendation>)
    ensures
        recs@.len() == file_tree@.len(),
        forall|i: int|
            0 <= i < recs@.len() ==> rec_matches(#[trigger] recs@[i], root@, file_tree@[i]@),
{
    let mut recs: Vec<FileRecommendation> = Vec::new();
    let mut k: usize = 0;
    while k < file_tree.len()
        invariant
            k <= file_tree@.len(),
            recs@.len() == k,
            forall|i: int|
                0 <= i < k ==> rec_matches(#[trigger] recs@[i], root@, file_tree@[i]@),
        decreases file_tree@.len() - k,
    {
        let rec = classify_path(root, file_tree[k].as_str());
        recs.push(rec);
        k = k + 1;
    }
    recs
}

/// Index of the last separator of `s` at a position below `i`, or -1.
pub open spec fn sep_from(s: Seq<char>, i: int) -> int
    decreases i,
{
    if i <= 0 {
        -1
    } else if s[i - 1] == '/' {
        i - 1
    } else {
        sep_from(s, i - 1)
    }
}

/// The file-name part of `s`: everything after the last separator.
pub open spec fn base_name(s: Seq<char>) -> Seq<char> {
    s.subrange(sep_from(s, s.len() as int) + 1, s.len() as int)
}

/// `abs` lies under `root`: it is `root` itself or continues it past a
/// separator.
pub open spec fn under_root(root: Seq<char>, abs: Seq<char>) -> bool {
    abs == root || (abs.len() > root.len() && abs.subrange(0, root.len() as int) == root
        && abs[root.len() as int] == '/')
}

/// The path of `abs` relative to `root`: empty when `abs` is `root`
/// itself, otherwise `abs` stripped of the leading `root` plus separator.
/// Meaningful only when `abs` lies under `root`.
pub open spec fn rel_to_root(root: Seq<char>, abs: Seq<char>) -> Seq<char> {
    if abs == root {
        Seq::empty()
    } else {
        abs.subrange(root.len() as int + 1, abs.len() as int)
    }
}

/// The file-name part of `s`, as a fresh string.
pub(crate) fn base_name_exec(s: &str) -> (r: String)
    ensures
        r@ == base_name(s@),
{
    let n = s.unicode_len();
    let mut i: usize = n;
    let sep: usize;
    loop
        invariant
            n == s@.len(),
            i <= n,
            sep_from(s@, n as int) == sep_from(s@, i as int),
        ensures
            sep as int == sep_from(s@, n as int) + 1,
            sep <= n,
        decreases i,
    {
        if i == 0 {
            sep = 0;
            break;
        }
        if s.get_char(i - 1) == '/' {
            sep = i;
            break;
        }
        i = i - 1;
    }
    let r = s.substring_char(sep, n).to_owned();
    proof {
        assert(r@ =~= base_name(s@));
    }
    r
}

/// Strip `root` plus a separator off `abs`, or report that `abs` does not
/// lie under `root`.
fn relativize(root: &str, abs: &str) -> (r: Option<String>)
    ensures
        (r is Some) == under_root(root@, abs@),
        r matches Option::Some(s) ==> s@ == rel_to_root(root@, abs@),
{
    let n_root = root.unicode_len();
    let n_abs = abs.unicode_len();
    if n_abs > n_root {
        let mut i: usize = 0;
        let mut same = true;
        while i < n_root
            invariant
                n_root == root@.len(),
                n_abs == abs@.len(),
                n_root < n_abs,
                i <= n_root,
                same ==> forall|k: int| 0 <= k < i ==> abs@[k] == root@[k],
                !same ==> abs@.subrange(0, n_root as int) != root@,
            decreases n_root - i,
        {
            if abs.get_char(i) != root.get_char(i) {
                proof {
                    assert(abs@.subrange(0, n_root as int)[i as int] != root@[i as int]);
                }
                same = false;
                i = n_root;
            } else {
                i = i + 1;
            }
        }
        if same && abs.get_char(n_root) == '/' {
            proof {
                assert(abs@.subrange(0, n_root as int) =~= root@);
            }
            let r = abs.substring_char(n_root + 1, n_abs).to_owned();
            proof {
                assert(abs@ != root@) by {
                    if abs@ == root@ {
                        assert(abs@.len() == root@.len());
                    }
                }
                assert(r@ =~= rel_to_root(root@, abs@));
            }
            return Some(r);
        }
        assert(!(abs@.len() > root@.len() && abs@.subrange(0, root@.len() as int) == root@
            && abs@[root@.len() as int] == '/'));
        assert(abs@ != root@) by {
            if abs@ == root@ {
                assert(abs@.len() == root@.len());
            }
        }
        return None;
    }
    if n_abs == n_root {
        let mut i: usize = 0;
        let mut same = true;
        while i < n_root
            invariant
                n_root == root@.len(),
                n_abs == abs@.len(),
                n_abs == n_root,
                i <= n_root,
                same ==> forall|k: int| 0 <= k < i ==> abs@[k] == root@[k],
                !same ==> abs@ != root@,
            decreases n_root - i,
        {
            if abs.get_char(i) != root.get_char(i) {
                same = false;
                i = n_root;
            } else {
                i = i + 1;
            }
        }
        if same {
            proof {
                assert(abs@ =~= root@);
            }
            return Some(String::new());
        }
        return None;
    }
    assert(abs@.len() < root@.len());
    None
}

/// Classify a single file named by an absolute path, against the watched
/// root. This never fails the caller: a path that does not lie under the
/// root falls back to a record of its bare file name, not recommended,
/// under the unknown category with a could-not-classify reason.
pub fn classify_single_file(root: &str, absolute_path: &str) -> (rec: FileRecommendation)
    ensures
        under_root(root@, absolute_path@) ==> rec_matches(
            rec,
            root@,
            rel_to_root(root@, absolute_path@),
        ),
        !under_root(root@, absolute_path@) ==> {
            &&& rec.path@ == base_name(absolute_path@)
            &&& rec.absolute_path@ == absolute_path@
            &&& rec.should_ingest == false
            &&& rec.category@ == "unknown"@
            &&& rec.reason@ == "Could not classify"@
        },
{
    match relativize(root, absolute_path) {
        Option::Some(relative) => classify_path(root, relative.as_str()),
        Option::None => FileRecommendation {
            path: base_name_exec(absolute_path),
            absolute_path: absolute_path.to_owned(),
            should_ingest: false,
            category: "unknown".to_owned(),
            reason: "Could not classify".to_owned(),
        },
    }
}

/// One entry of a directory snapshot: a plain file or a subdirectory with
/// its own entries. The scan walks such a snapshot rather than the disk, so
/// every traversal rule is a statement about this value.
#[derive(Debug)]
pub enum FsNode {
    File { name: String },
    Dir { name: String, entries: Vec<FsNode> },
}

/// Hidden entries (name starting with a dot) are skipped by the scan.
pub open spec fn hidden_name(name: Seq<char>) -> bool {
    name.len() > 0 && name[0] == '.'
}

/// Directory names that the scan never descends into: dependency, build and
/// version-control caches.
pub open spec fn skip_dir_name(name: Seq<char>) -> bool {
    ||| name == "node_modules"@
    ||| name == "__pycache__"@
    ||| name == ".git"@
    ||| name == ".svn"@
    ||| name == "target"@
    ||| name == "build"@
    ||| name == "dist"@
    ||| name == ".cache"@
    ||| name == "venv"@
    ||| name == ".venv"@
}

/// Relative path of an entry called `name` under `prefix`.
pub open spec fn child_path(prefix: Seq<char>, name: Seq<char>) -> Seq<char> {
    if prefix.len() == 0 {
        name
    } else {
        prefix + "/"@ + name
    }
}

/// Relative paths of all files a depth-bounded walk of `nodes` yields, in
/// traversal order: hidden entries are dropped, deny-listed directories are
/// not entered, and directories beyond the depth budget are not entered.
pub open spec fn walk(nodes: Seq<FsNode>, prefix: Seq<char>, depth_left: int) -> Seq<Seq<char>>
    decreases depth_left, nodes.len(),
{
    if nodes.len() == 0 {
        Seq::empty()
    } else {
        let head: Seq<Seq<char>> = match nodes[0] {
            FsNode::File { name } => if hidden_name(name@) {
                Seq::empty()
            } else {
                seq![child_path(prefix, name@)]
            },
            FsNode::Dir { name, entries } => {
                if hidden_name(name@) || skip_dir_name(name@) || depth_left <= 0 {
                    Seq::empty()
                } else {
                    walk(entries@, child_path(prefix, name@), depth_left - 1)
                }
            },
        };
        head + walk(nodes.drop_first(), prefix, depth_left)
    }
}

/// The smaller of two integers.
pub open spec fn min_nat(a: int, b: int) -> int {
    if a <= b {
        a
    } else {
        b
    }
}

/// A walk of a concatenation is the concatenation of the walks.
proof fn lemma_walk_append(s1: Seq<FsNode>, s2: Seq<FsNode>, prefix: Seq<char>, d: int)
    ensures
        walk(s1 + s2, prefix, d) == walk(s1, prefix, d) + walk(s2, prefix, d),
    decreases s1.len(),
{
    if s1.len() == 0 {
        assert(s1 + s2 =~= s2);
        assert(walk(s1, prefix, d) + walk(s2, prefix, d) =~= walk(s2, prefix, d));
    } else {
        assert((s1 + s2)[0] == s1[0]);
        assert((s1 + s2).drop_first() =~= s1.drop_first() + s2);
        lemma_walk_append(s1.drop_first(), s2, prefix, d);
        assert(walk(s1 + s2, prefix, d) =~= walk(s1, prefix, d) + walk(s2, prefix, d));
    }
}

/// The walk of a single entry, spelled out.
proof fn lemma_walk_one(node: FsNode, prefix: Seq<char>, d: int)
    ensures
        walk(seq![node], prefix, d) == (match node {
            FsNode::File { name } => if hidden_name(name@) {
                Seq::<Seq<char>>::empty()
            } else {
                seq![child_path(prefix, name@)]
            },
            FsNode::Dir { name, entries } => {
                if hidden_name(name@) || skip_dir_name(name@) || d <= 0 {
                    Seq::<Seq<char>>::empty()
                } else {
                    walk(entries@, child_path(prefix, name@), d - 1)
                }
            },
        }),
{
    reveal_with_fuel(walk, 3);
    assert(seq![node].drop_first() =~= Seq::<FsNode>::empty());
    assert(seq![node][0] == node);
    assert(walk(seq![node].drop_first(), prefix, d) =~= Seq::<Seq<char>>::empty());
    match node {
        FsNode::File { name } => {
            if hidden_name(name@) {
                assert(walk(seq![node], prefix, d) =~= Seq::<Seq<char>>::empty());
            } else {
                assert(walk(seq![node], prefix, d) =~= seq![child_path(prefix, name@)]);
            }
        },
        FsNode::Dir { name, entries } => {
            if hidden_name(name@) || skip_dir_name(name@) || d <= 0 {
                assert(walk(seq![node], prefix, d) =~= Seq::<Seq<char>>::empty());
            } else {
                assert(walk(seq![node], prefix, d) =~= walk(
                    entries@,
                    child_path(prefix, name@),
                    d - 1,
                ));
            }
        },
    }
}

fn is_hidden_name(name: &str) -> (r: bool)
    ensures
        r == hidden_name(name@),
{
    let n = name.unicode_len();
    n > 0 && name.get_char(0) == '.'
}

fn is_skip_dir(name: &str) -> (r: bool)
    ensures
        r == skip_dir_name(name@),
{
    crate::text::eq_str(name, "node_modules") || crate::text::eq_str(name, "__pycache__")
        || crate::text::eq_str(name, ".git") || crate::text::eq_str(name, ".svn")
        || crate::text::eq_str(name, "target") || crate::text::eq_str(name, "build")
        || crate::text::eq_str(name, "dist") || crate::text::eq_str(name, ".cache")
        || crate::text::eq_str(name, "venv") || crate::text::eq_str(name, ".venv")
}

/// Append the walk of `nodes` to `files`, stopping once `files` holds
/// `max_files` paths.
fn scan_nodes(
    nodes: &Vec<FsNode>,
    prefix: &String,
    depth_left: usize,
    max_files: usize,
    files: &mut Vec<String>,
)
    requires
        old(files)@.len() <= max_files,
    ensures
        final(files).deep_view() == (old(files).deep_view() + walk(
            nodes@,
            prefix@,
            depth_left as int,
        )).take(
            min_nat(
                max_files as int,
                old(files)@.len() as int + walk(nodes@, prefix@, depth_left as int).len() as int,
            ),
        ),
    decreases depth_left,
{
    let ghost w_all = walk(nodes@, prefix@, depth_left as int);
    let ghost o = old(files).deep_view();
    let mut k: usize = 0;
    while k < nodes.len() && files.len() < max_files
        invariant
            k <= nodes@.len(),
            files@.len() <= max_files,
            o.len() <= max_files,
            w_all == walk(nodes@, prefix@, depth_left as int),
            o == old(files).deep_view(),
            files.deep_view() == (o + walk(nodes@.take(k as int), prefix@, depth_left as int)).take(
                min_nat(
                    max_files as int,
                    o.len() as int + walk(nodes@.take(k as int), prefix@, depth_left as int).len() as int,
                ),
            ),
        decreases nodes@.len() - k,
    {
        let ghost w_k = walk(nodes@.take(k as int), prefix@, depth_left as int);
        proof {
            // Not yet truncated: what is collected so far is exactly the walk
            // of the first k entries.
            assert((o + w_k).take(min_nat(max_files as int, o.len() as int + w_k.len() as int)).len() == min_nat(
                max_files as int,
                o.len() as int + w_k.len() as int,
            ));
            assert(files.deep_view().len() < max_files);
            assert(min_nat(max_files as int, o.len() as int + w_k.len() as int) == o.len() as int + w_k.len() as int);
            assert((o + w_k).take((o.len() as int + w_k.len() as int) as int) =~= o + w_k);
            assert(files.deep_view() == o + w_k);
            // Unfold the walk of the first k+1 entries.
            assert(nodes@.take(k as int + 1) =~= nodes@.take(k as int) + seq![nodes@[k as int]]);
            lemma_walk_append(
                nodes@.take(k as int),
                seq![nodes@[k as int]],
                prefix@,
                depth_left as int,
            );
            assert(seq![nodes@[k as int]].drop_first() =~= Seq::<FsNode>::empty());
        }
        let ghost w_one = walk(seq![nodes@[k as int]], prefix@, depth_left as int);
        let ghost w_k1 = walk(nodes@.take(k as int + 1), prefix@, depth_left as int);
        proof {
            lemma_walk_one(nodes@[k as int], prefix@, depth_left as int);
            assert(w_k1 =~= w_k + w_one);
        }
        match &nodes[k] {
            FsNode::File { name } => {
                if !is_hidden_name(name.as_str()) {
                    let rel: String = if prefix.as_str().is_empty() {
                        name.clone()
                    } else {
                        join_path(prefix.as_str(), name.as_str())
                    };
                    assert(rel@ == child_path(prefix@, name@));
                    files.push(rel);
                    proof {
                        assert(w_one =~= seq![child_path(prefix@, name@)]);
                        assert(files.deep_view() =~= (o + w_k).push(rel@));
                        assert((o + w_k).push(rel@) =~= o + w_k1);
                        assert(o.len() as int + w_k1.len() as int <= max_files as int);
                        assert(files.deep_view() =~= (o + w_k1).take(
                            min_nat(max_files as int, o.len() as int + w_k1.len() as int),
                        ));
                    }
                } else {
                    proof {
                        assert(w_one =~= Seq::<Seq<char>>::empty());
                        assert(o + w_k1 =~= o + w_k);
                        assert(files.deep_view() =~= (o + w_k1).take(
                            min_nat(max_files as int, o.len() as int + w_k1.len() as int),
                        ));
                    }
                }
            },
            FsNode::Dir { name, entries } => {
                if !is_hidden_name(name.as_str()) && !is_skip_dir(name.as_str()) && depth_left > 0 {
                    let child_prefix: String = if prefix.as_str().is_empty() {
                        name.clone()
                    } else {
                        join_path(prefix.as_str(), name.as_str())
                    };
                    assert(child_prefix@ == child_path(prefix@, name@));
                    scan_nodes(entries, &child_prefix, depth_left - 1, max_files, files);
                    proof {
                        assert(w_one =~= walk(
                            entries@,
                            child_path(prefix@, name@),
                            depth_left as int - 1,
                        ));
                        assert((o + w_k) + w_one =~= o + w_k1);
                        assert(min_nat(
                            max_files as int,
                            (o + w_k).len() as int + w_one.len() as int,
                        ) == min_nat(max_files as int, o.len() as int + w_k1.len() as int));
                        assert(files.deep_view() =~= (o + w_k1).take(
                            min_nat(max_files as int, o.len() as int + w_k1.len() as int),
                        ));
                    }
                } else {
                    proof {
                        assert(w_one =~= Seq::<Seq<char>>::empty());
                        assert(o + w_k1 =~= o + w_k);
                        assert(files.deep_view() =~= (o + w_k1).take(
                            min_nat(max_files as int, o.len() as int + w_k1.len() as int),
                        ));
                    }
                }
            },
        }
        k = k + 1;
    }
    proof {
        let w_k = walk(nodes@.take(k as int), prefix@, depth_left as int);
        if k == nodes@.len() {
            assert(nodes@.take(k as int) =~= nodes@);
        } else {
            // The ceiling was reached: everything after the first k entries
            // is cut off by the truncation either way.
            assert(files.deep_view().len() == min_nat(max_files as int, o.len() as int + w_k.len() as int));
            assert(files.deep_view().len() == max_files);
            assert(o.len() as int + w_k.len() as int >= max_files);
            assert(nodes@ =~= nodes@.take(k as int) + nodes@.skip(k as int));
            lemma_walk_append(
                nodes@.take(k as int),
                nodes@.skip(k as int),
                prefix@,
                depth_left as int,
            );
            assert(w_all == w_k + walk(nodes@.skip(k as int), prefix@, depth_left as int));
            assert((o + w_k).take(max_files as int) =~= (o + w_all).take(max_files as int));
            assert(files.deep_view() =~= (o + w_all).take(
                min_nat(max_files as int, o.len() as int + w_all.len() as int),
            ));
        }
    }
}

/// The path views of a recommendation list, in order.
pub open spec fn paths_of(recs: Seq<FileRecommendation>) -> Seq<Seq<char>> {
    recs.map_values(|r: FileRecommendation| r.path@)
}

/// The paths among `paths` whose ingestion recommendation is `want`, in
/// order.
pub open spec fn selected_paths(paths: Seq<Seq<char>>, want: bool) -> Seq<Seq<char>>
    decreases paths.len(),
{
    if paths.len() == 0 {
        Seq::empty()
    } else {
        selected_paths(paths.drop_last(), want) + (if ingest_spec(paths.last()) == want {
            seq![paths.last()]
        } else {
            Seq::empty()
        })
    }
}

/// How many of `paths` are classified under `cat`.
pub open spec fn category_count(paths: Seq<Seq<char>>, cat: Seq<char>) -> int
    decreases paths.len(),
{
    if paths.len() == 0 {
        0
    } else {
        category_count(paths.drop_last(), cat) + (if category_seq(paths.last()) == cat {
            1int
        } else {
            0int
        })
    }
}

/// Collect the relative paths of all files reachable within `max_depth`
/// levels, stopping silently once `max_files` paths are collected.
pub fn scan_directory_tree(entries: &Vec<FsNode>, max_depth: usize, max_files: usize) -> (files:
    Vec<String>)
    ensures
        files.deep_view() == walk(entries@, Seq::empty(), max_depth as int).take(
            min_nat(
                max_files as int,
                walk(entries@, Seq::empty(), max_depth as int).len() as int,
            ),
        ),
{
    let mut files: Vec<String> = Vec::new();
    let prefix = String::new();
    scan_nodes(entries, &prefix, max_depth, max_files, &mut files);
    proof {
        assert(files.deep_view() =~= walk(entries@, Seq::empty(), max_depth as int).take(
            min_nat(
                max_files as int,
                walk(entries@, Seq::empty(), max_depth as int).len() as int,
            ),
        ));
    }
    files
}

#[derive(Debug, Clone)]
pub struct ScanSummary {
    pub personal_data_count: usize,
    pub media_count: usize,
    pub config_count: usize,
    pub website_scaffolding_count: usize,
    pub work_count: usize,
    pub unknown_count: usize,
}

#[derive(Debug, Clone)]
pub struct ScanResult {
    pub total_files: usize,
    pub recommended_files: Vec<FileRecommendation>,
    pub skipped_files: Vec<FileRecommendation>,
    pub summary: ScanSummary,
}

/// The paths that a scan of `entries` collects: the bounded walk, cut off at
/// the file ceiling.
pub open spec fn scanned_paths(entries: Seq<FsNode>) -> Seq<Seq<char>> {
    let w = walk(entries, Seq::empty(), MAX_DEPTH as int);
    w.take(min_nat(MAX_FILES as int, w.len() as int))
}

/// Scan a directory snapshot and classify every collected file: the result
/// partitions the collected paths into recommended and skipped ones, in
/// traversal order, and counts them by category.
pub fn scan_and_classify(root: &str, entries: &Vec<FsNode>) -> (result: ScanResult)
    ensures
        result.total_files as int == scanned_paths(entries@).len(),
        paths_of(result.recommended_files@) == selected_paths(scanned_paths(entries@), true),
        paths_of(result.skipped_files@) == selected_paths(scanned_paths(entries@), false),
        forall|i: int|
            0 <= i < result.recommended_files@.len() ==> rec_wf(
                #[trigger] result.recommended_files@[i],
                root@,
            ) && result.recommended_files@[i].should_ingest,
        forall|i: int|
            0 <= i < result.skipped_files@.len() ==> rec_wf(#[trigger] result.skipped_files@[i], root@)
                && !result.skipped_files@[i].should_ingest,
        result.summary.personal_data_count as int == category_count(
            scanned_paths(entries@),
            "personal_data"@,
        ),
        result.summary.media_count as int == category_count(scanned_paths(entries@), "media"@),
        result.summary.config_count as int == category_count(scanned_paths(entries@), "config"@),
        result.summary.website_scaffolding_count as int == category_count(
            scanned_paths(entries@),
            "website_scaffolding"@,
        ),
        result.summary.work_count as int == category_count(scanned_paths(entries@), "work"@),
        result.summary.unknown_count as int == category_count(scanned_paths(entries@), "unknown"@),
{
    let files = scan_directory_tree(entries, MAX_DEPTH, MAX_FILES);
    let ghost paths = scanned_paths(entries@);
    proof {
        assert(files.deep_view() == paths);
    }
    let mut recommended: Vec<FileRecommendation> = Vec::new();
    let mut skipped: Vec<FileRecommendation> = Vec::new();
    let mut pd: usize = 0;
    let mut md: usize = 0;
    let mut cf: usize = 0;
    let mut ws: usize = 0;
    let mut wk: usize = 0;
    let mut unk: usize = 0;
    let mut k: usize = 0;
    while k < files.len()
        invariant
            k <= files@.len(),
            paths == files.deep_view(),
            paths.len() == files@.len(),
            paths_of(recommended@) == selected_paths(paths.take(k as int), true),
            paths_of(skipped@) == selected_paths(paths.take(k as int), false),
            forall|i: int|
                0 <= i < recommended@.len() ==> rec_wf(#[trigger] recommended@[i], root@)
                    && recommended@[i].should_ingest,
            forall|i: int|
                0 <= i < skipped@.len() ==> rec_wf(#[trigger] skipped@[i], root@)
                    && !skipped@[i].should_ingest,
            pd as int == category_count(paths.take(k as int), "personal_data"@),
            md as int == category_count(paths.take(k as int), "media"@),
            cf as int == category_count(paths.take(k as int), "config"@),
            ws as int == category_count(paths.take(k as int), "website_scaffolding"@),
            wk as int == category_count(paths.take(k as int), "work"@),
            unk as int == category_count(paths.take(k as int), "unknown"@),
            pd + md + cf + ws + wk + unk == k,
        decreases files@.len() - k,
    {
        proof {
            reveal_strlit("personal_data");
            reveal_strlit("media");
            reveal_strlit("config");
            reveal_strlit("website_scaffolding");
            reveal_strlit("work");
            reveal_strlit("unknown");
            assert("personal_data"@.len() == 13);
            assert("media"@.len() == 5);
            assert("config"@.len() == 6);
            assert("website_scaffolding"@.len() == 19);
            assert("work"@.len() == 4);
            assert("unknown"@.len() == 7);
        }
        let rec = classify_path(root, files[k].as_str());
        let ghost p = paths[k as int];
        proof {
            assert(files@[k as int]@ == p);
            assert(paths.take(k as int + 1).drop_last() =~= paths.take(k as int));
            assert(paths.take(k as int + 1).last() == p);
        }
        let is_pd = crate::text::eq_str(rec.category.as_str(), "personal_data");
        let is_md = crate::text::eq_str(rec.category.as_str(), "media");
        let is_cf = crate::text::eq_str(rec.category.as_str(), "config");
        let is_ws = crate::text::eq_str(rec.category.as_str(), "website_scaffolding");
        let is_wk = crate::text::eq_str(rec.category.as_str(), "work");
        if is_pd {
            pd = pd + 1;
        } else if is_md {
            md = md + 1;
        } else if is_cf {
            cf = cf + 1;
        } else if is_ws {
            ws = ws + 1;
        } else if is_wk {
            wk = wk + 1;
        } else {
            unk = unk + 1;
        }
        if rec.should_ingest {
            recommended.push(rec);
            proof {
                assert(paths_of(recommended@) =~= selected_paths(paths.take(k as int + 1), true));
                assert(paths_of(skipped@) =~= selected_paths(paths.take(k as int + 1), false));
            }
        } else {
            skipped.push(rec);
            proof {
                assert(paths_of(recommended@) =~= selected_paths(paths.take(k as int + 1), true));
                assert(paths_of(skipped@) =~= selected_paths(paths.take(k as int + 1), false));
            }
        }
        k = k + 1;
    }
    proof {
        assert(paths.take(paths.len() as int) =~= paths);
    }
    ScanResult {
        total_files: files.len(),
        recommended_files: recommended,
        skipped_files: skipped,
        summary: ScanSummary {
            personal_data_count: pd,
            media_count: md,
            config_count: cf,
            website_scaffolding_count: ws,
            work_count: wk,
            unknown_count: unk,
        },
    }
}

/// How many of `recs` carry the category string `cat`.
pub open spec fn rec_category_count(recs: Seq<FileRecommendation>, cat: Seq<char>) -> int
    decreases recs.len(),
{
    if recs.len() == 0 {
        0
    } else {
        rec_category_count(recs.drop_last(), cat) + (if recs.last().category@ == cat {
            1int
        } else {
            0int
        })
    }
}

/// One of the category names the summary counts by name.
pub open spec fn known_category(cat: Seq<char>) -> bool {
    ||| cat == "personal_data"@
    ||| cat == "media"@
    ||| cat == "config"@
    ||| cat == "website_scaffolding"@
    ||| cat == "work"@
}

/// How many of `recs` carry none of the named categories.
pub open spec fn rec_other_count(recs: Seq<FileRecommendation>) -> int
    decreases recs.len(),
{
    if recs.len() == 0 {
        0
    } else {
        rec_other_count(recs.drop_last()) + (if !known_category(recs.last().category@) {
            1int
        } else {
            0int
        })
    }
}

/// Count recommendations by category; anything not carrying a named
/// category counts as unknown.
pub fn build_summary(recommendations: &Vec<FileRecommendation>) -> (summary: ScanSummary)
    ensures
        summary.personal_data_count as int == rec_category_count(
            recommendations@,
            "personal_data"@,
        ),
        summary.media_count as int == rec_category_count(recommendations@, "media"@),
        summary.config_count as int == rec_category_count(recommendations@, "config"@),
        summary.website_scaffolding_count as int == rec_category_count(
            recommendations@,
            "website_scaffolding"@,
        ),
        summary.work_count as int == rec_category_count(recommendations@, "work"@),
        summary.unknown_count as int == rec_other_count(recommendations@),
{
    let mut pd: usize = 0;
    let mut md: usize = 0;
    let mut cf: usize = 0;
    let mut ws: usize = 0;
    let mut wk: usize = 0;
    let mut unk: usize = 0;
    let mut k: usize = 0;
    while k < recommendations.len()
        invariant
            k <= recommendations@.len(),
            pd as int == rec_category_count(recommendations@.take(k as int), "personal_data"@),
            md as int == rec_category_count(recommendations@.take(k as int), "media"@),
            cf as int == rec_category_count(recommendations@.take(k as int), "config"@),
            ws as int == rec_category_count(
                recommendations@.take(k as int),
                "website_scaffolding"@,
            ),
            wk as int == rec_category_count(recommendations@.take(k as int), "work"@),
            unk as int == rec_other_count(recommendations@.take(k as int)),
            pd + md + cf + ws + wk + unk == k,
        decreases recommendations@.len() - k,
    {
        proof {
            reveal_strlit("personal_data");
            reveal_strlit("media");
            reveal_strlit("config");
            reveal_strlit("website_scaffolding");
            reveal_strlit("work");
            assert("personal_data"@.len() == 13);
            assert("media"@.len() == 5);
            assert("config"@.len() == 6);
            assert("website_scaffolding"@.len() == 19);
            assert("work"@.len() == 4);
            assert(recommendations@.take(k as int + 1).drop_last() =~= recommendations@.take(
                k as int,
            ));
            assert(recommendations@.take(k as int + 1).last() == recommendations@[k as int]);
        }
        let cat = &recommendations[k].category;
        if crate::text::eq_str(cat.as_str(), "personal_data") {
            pd = pd + 1;
        } else if crate::text::eq_str(cat.as_str(), "media") {
            md = md + 1;
        } else if crate::text::eq_str(cat.as_str(), "config") {
            cf = cf + 1;
        } else if crate::text::eq_str(cat.as_str(), "website_scaffolding") {
            ws = ws + 1;
        } else if crate::text::eq_str(cat.as_str(), "work") {
            wk = wk + 1;
        } else {
            unk = unk + 1;
        }
        k = k + 1;
    }
    proof {
        assert(recommendations@.take(recommendations@.len() as int) =~= recommendations@);
    }
    ScanSummary {
        personal_data_count: pd,
        media_count: md,
        config_count: cf,
        website_scaffolding_count: ws,
        work_count: wk,
        unknown_count: unk,
    }
}

/// Law: any path under a scaffolding marker is classified as website
/// scaffolding and never recommended, regardless of its extension.
pub proof fn lemma_scaffolding_marker(p: Seq<char>)
    requires
        contains_ci(p, "node_modules"@) || contains_ci(p, "twemoji"@) || contains_ci(
            p,
            "/assets/"@,
        ),
    ensures
        category_seq(p) == "website_scaffolding"@,
        !ingest_spec(p),
{
}

/// Law: a path with a document or data extension that matches neither the
/// scaffolding nor the config rules is recommended as personal data.
pub proof fn lemma_data_extension(p: Seq<char>)
    requires
        ext_is(p, "json"@) || ext_is(p, "csv"@) || ext_is(p, "txt"@) || ext_is(p, "md"@) || ext_is(
            p,
            "doc"@,
        ) || ext_is(p, "docx"@) || ext_is(p, "pdf"@) || ext_is(p, "js"@),
        !is_scaffolding(p),
        !is_config(p),
    ensures
        category_seq(p) == "personal_data"@,
        ingest_spec(p),
{
    reveal_strlit("json");
    reveal_strlit("csv");
    reveal_strlit("txt");
    reveal_strlit("md");
    reveal_strlit("doc");
    reveal_strlit("docx");
    reveal_strlit("pdf");
    reveal_strlit("js");
    reveal_strlit("jpg");
    reveal_strlit("jpeg");
    reveal_strlit("png");
    reveal_strlit("gif");
    reveal_strlit("mp4");
    reveal_strlit("mp3");
    reveal_strlit("wav");
    assert("json"@.len() == 4);
    assert("csv"@.len() == 3);
    assert("txt"@.len() == 3);
    assert("md"@.len() == 2);
    assert("doc"@.len() == 3);
    assert("docx"@.len() == 4);
    assert("pdf"@.len() == 3);
    assert("js"@.len() == 2);
    assert("jpg"@.len() == 3);
    assert("jpeg"@.len() == 4);
    assert("png"@.len() == 3);
    assert("gif"@.len() == 3);
    assert("mp4"@.len() == 3);
    assert("mp3"@.len() == 3);
    assert("wav"@.len() == 3);
    assert("json"@[1] == 's');
    assert("docx"@[0] == 'd');
    assert("jpeg"@[0] == 'j');
    assert("jpeg"@[1] == 'p');
    assert("csv"@[0] == 'c');
    assert("txt"@[0] == 't');
    assert("doc"@[0] == 'd');
    assert("pdf"@[0] == 'p');
    assert("pdf"@[1] == 'd');
    assert("jpg"@[0] == 'j');
    assert("png"@[0] == 'p');
    assert("png"@[1] == 'n');
    assert("gif"@[0] == 'g');
    assert("mp4"@[0] == 'm');
    assert("mp3"@[0] == 'm');
    assert("wav"@[0] == 'w');
    assert(!is_media(p));
}

/// Law: a path carrying any personal-data marker (a data extension or a
/// data, export or backup segment) that matches neither the scaffolding,
/// the config nor the media rules is recommended as personal data. The
/// media exclusion is needed: by the precedence order, a media extension
/// under an export or backup segment is classified as media instead.
pub proof fn lemma_personal_markers(p: Seq<char>)
    requires
        is_personal(p),
        !is_scaffolding(p),
        !is_config(p),
        !is_media(p),
    ensures
        category_seq(p) == "personal_data"@,
        ingest_spec(p),
{
}

/// Law: a path with a media extension that matches neither the scaffolding
/// nor the config rules is recommended as media.
pub proof fn lemma_media_extension(p: Seq<char>)
    requires
        ext_is(p, "jpg"@) || ext_is(p, "jpeg"@) || ext_is(p, "png"@) || ext_is(p, "gif"@) || ext_is(
            p,
            "mp4"@,
        ) || ext_is(p, "mp3"@) || ext_is(p, "wav"@),
        !is_scaffolding(p),
        !is_config(p),
    ensures
        category_seq(p) == "media"@,
        ingest_spec(p),
{
}

/// Law: the same media extensions under an asset directory are classified
/// as scaffolding and not recommended.
pub proof fn lemma_media_under_assets(p: Seq<char>)
    requires
        contains_ci(p, "/assets/"@),
    ensures
        category_seq(p) == "website_scaffolding"@,
        !ingest_spec(p),
{
}

/// Law: a recommendation to ingest only ever carries the media or the
/// personal-data category.
pub proof fn lemma_ingest_only_media_or_personal(p: Seq<char>)
    ensures
        ingest_spec(p) ==> category_seq(p) == "media"@ || category_seq(p) == "personal_data"@,
{
}

/// Law: the recommended and the skipped paths together are exactly the
/// scanned paths; nothing is lost in the partition.
pub proof fn lemma_selected_partition(paths: Seq<Seq<char>>)
    ensures
        selected_paths(paths, true).len() + selected_paths(paths, false).len() == paths.len(),
    decreases paths.len(),
{
    if paths.len() != 0 {
        lemma_selected_partition(paths.drop_last());
    }
}

/// Law: when a tree holds at least as many eligible files as the ceiling,
/// a scan collects exactly the ceiling's worth of paths.
pub proof fn lemma_file_ceiling(entries: Seq<FsNode>)
    requires
        walk(entries, Seq::empty(), MAX_DEPTH as int).len() >= MAX_FILES,
    ensures
        scanned_paths(entries).len() == MAX_FILES,
{
}

} // verus!

