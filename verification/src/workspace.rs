//! The per-run workspace layout and path confinement inside it.

use vstd::prelude::*;
use crate::error::EngineError;
use crate::text::{
    cat, cat3, is_ascii_alnum, is_ascii_alnum_char, join, join_strings, owned, push_line,
    split_on, split_on_exec, str_eq, strs, trim_char, trim_char_exec, lemma_trim_char_keeps_out,
    lemma_split_single, lemma_split_append,
};

verus! {

/// The directories of one run.
#[derive(Clone, Debug)]
pub struct Workspace {
    pub root: String,
    pub input: String,
    pub work: String,
    pub output: String,
    pub reports: String,
    pub scans: String,
    pub logs: String,
}

/// The chars kept in run names.
pub open spec fn run_name_char(c: char) -> bool {
    is_ascii_alnum(c) || c == '-' || c == '_'
}

/// A run name made of ASCII letters, digits, `-` and `_` (others become
/// `-`), without leading or trailing `-`.
pub open spec fn sanitized_run_name(s: Seq<char>) -> Seq<char> {
    trim_char(Seq::new(s.len(), |i: int| if run_name_char(s[i]) { s[i] } else { '-' }), '-')
}

pub fn sanitize_run_name(input: &str) -> (r: String)
    ensures
        r@ == sanitized_run_name(input@),
{
    let ghost mapped_spec = Seq::new(
        input@.len(),
        |i: int|
            if run_name_char(input@[i]) {
                input@[i]
            } else {
                '-'
            },
    );
    let n = input.unicode_len();
    let mut mapped = String::new();
    let mut i: usize = 0;
    while i < n
        invariant
            n == input@.len(),
            i <= n,
            mapped_spec.len() == n,
            forall|k: int|
                0 <= k < n ==> #[trigger] mapped_spec[k] == (if run_name_char(input@[k]) {
                    input@[k]
                } else {
                    '-'
                }),
            mapped@ == mapped_spec.take(i as int),
        decreases n - i,
    {
        let c = input.get_char(i);
        if is_ascii_alnum_char(c) || c == '-' || c == '_' {
            crate::text::string_push(&mut mapped, c);
        } else {
            crate::text::string_push(&mut mapped, '-');
        }
        assert(mapped_spec.take(i + 1) =~= mapped_spec.take(i as int).push(mapped_spec[i as int]));
        i = i + 1;
    }
    assert(mapped_spec.take(n as int) =~= mapped_spec);
    trim_char_exec(mapped.as_str(), '-')
}

/// `PathBuf::join` of a relative, non-empty name onto `base`.
pub open spec fn path_join(base: Seq<char>, name: Seq<char>) -> Seq<char> {
    if base.len() == 0 {
        name
    } else if base.last() == '/' {
        base + name
    } else {
        base + "/"@ + name
    }
}

pub fn path_join_exec(base: &str, name: &str) -> (r: String)
    ensures
        r@ == path_join(base@, name@),
{
    let n = base.unicode_len();
    if n == 0 {
        owned(name)
    } else if base.get_char(n - 1) == '/' {
        cat(base, name)
    } else {
        cat3(base, "/", name)
    }
}

/// The layout of a run under `base`: a root named after the run and its
/// unique `id`, and the sub-directories `input`, `work`, `output`,
/// `reports`, `scans` and `logs`.
pub open spec fn workspace_layout(base: Seq<char>, run_name: Seq<char>, id: Seq<char>) -> (Seq<char>, Seq<Seq<char>>) {
    let root = path_join(base, sanitized_run_name(run_name) + "-"@ + id);
    (
        root,
        seq![
            path_join(root, "input"@),
            path_join(root, "work"@),
            path_join(root, "output"@),
            path_join(root, "reports"@),
            path_join(root, "scans"@),
            path_join(root, "logs"@),
        ],
    )
}

impl Workspace {
    /// The directories of a run under `base` with the unique suffix `id`.
    pub fn layout(base: &str, run_name: &str, id: &str) -> (w: Workspace)
        ensures
            w.root@ == workspace_layout(base@, run_name@, id@).0,
            seq![w.input@, w.work@, w.output@, w.reports@, w.scans@, w.logs@] == workspace_layout(
                base@,
                run_name@,
                id@,
            ).1,
    {
        let name = sanitize_run_name(run_name);
        let dir = cat3(name.as_str(), "-", id);
        let root = path_join_exec(base, dir.as_str());
        let input = path_join_exec(root.as_str(), "input");
        let work = path_join_exec(root.as_str(), "work");
        let output = path_join_exec(root.as_str(), "output");
        let reports = path_join_exec(root.as_str(), "reports");
        let scans = path_join_exec(root.as_str(), "scans");
        let logs = path_join_exec(root.as_str(), "logs");
        Workspace { root, input, work, output, reports, scans, logs }
    }

    /// All directories of the run, the root first.
    pub fn all_dirs(&self) -> (r: Vec<String>)
        ensures
            strs(r@) == seq![
                self.root@,
                self.input@,
                self.work@,
                self.output@,
                self.reports@,
                self.scans@,
                self.logs@,
            ],
    {
        let mut r: Vec<String> = Vec::new();
        r.push(self.root.clone());
        r.push(self.input.clone());
        r.push(self.work.clone());
        r.push(self.output.clone());
        r.push(self.reports.clone());
        r.push(self.scans.clone());
        r.push(self.logs.clone());
        assert(strs(r@) =~= seq![
            self.root@,
            self.input@,
            self.work@,
            self.output@,
            self.reports@,
            self.scans@,
            self.logs@,
        ]);
        r
    }
}

/// A lowercase hexadecimal digit.
pub open spec fn lower_hex_char(c: char) -> bool {
    ('0' <= c && c <= '9') || ('a' <= c && c <= 'f')
}

/// The hyphenated text of a UUID: 36 characters, `-` at 8, 13, 18 and 23,
/// lowercase hexadecimal digits elsewhere.
pub open spec fn uuid_text(s: Seq<char>) -> bool {
    s.len() == 36 && forall|i: int|
        0 <= i < 36 ==> (if i == 8 || i == 13 || i == 18 || i == 23 {
            #[trigger] s[i] == '-'
        } else {
            lower_hex_char(s[i])
        })
}

/// `uuid::Uuid::new_v4()` in its `Display` form: random, hyphenated,
/// lowercase hexadecimal. Which identifier comes out is not stated.
#[verifier::external_body]
pub(crate) fn new_run_id() -> (r: String)
    ensures
        uuid_text(r@),
{
    uuid::Uuid::new_v4().to_string()
}

impl Workspace {
    /// The directories of a new run under `base`, with a fresh random id.
    pub fn plan(base: &str, run_name: &str) -> (w: Workspace)
        ensures
            exists|id: Seq<char>|
                uuid_text(id) && w.root@ == #[trigger] workspace_layout(base@, run_name@, id).0 && seq![
                    w.input@,
                    w.work@,
                    w.output@,
                    w.reports@,
                    w.scans@,
                    w.logs@,
                ] == workspace_layout(base@, run_name@, id).1,
    {
        let id = new_run_id();
        Workspace::layout(base, run_name, id.as_str())
    }
}

// ---------------------------------------------------------------------------
// Confinement
// ---------------------------------------------------------------------------

/// The normal components of a `/`-separated path: empty and `.` parts are
/// dropped.
pub open spec fn components(p: Seq<char>) -> Seq<Seq<char>> {
    named_parts(split_on(p, '/'))
}

/// The parts that are neither empty nor `.`, in order.
pub open spec fn named_parts(parts: Seq<Seq<char>>) -> Seq<Seq<char>>
    decreases parts.len(),
{
    if parts.len() == 0 {
        Seq::empty()
    } else if parts.last().len() > 0 && parts.last() != "."@ {
        named_parts(parts.drop_last()).push(parts.last())
    } else {
        named_parts(parts.drop_last())
    }
}

/// `a` is a component-wise prefix of `b` (`Path::starts_with`).
pub open spec fn is_prefix_of(a: Seq<Seq<char>>, b: Seq<Seq<char>>) -> bool {
    a.len() <= b.len() && b.subrange(0, a.len() as int) == a
}

/// The absolute path made of components.
pub open spec fn absolute_text(c: Seq<Seq<char>>) -> Seq<char> {
    "/"@ + join(c, "/"@)
}

/// Walking `rel` from `cur`: a normal component is entered, `..` leaves one
/// (failing at the top or when it leaves `root`), others are skipped.
/// `None` when the walk escapes.
pub open spec fn walk(root: Seq<Seq<char>>, cur: Seq<Seq<char>>, rel: Seq<Seq<char>>) -> Option<Seq<Seq<char>>>
    decreases rel.len(),
{
    if rel.len() == 0 {
        Some(cur)
    } else if rel[0].len() == 0 || rel[0] == "."@ {
        walk(root, cur, rel.drop_first())
    } else if rel[0] == ".."@ {
        if cur.len() == 0 || !is_prefix_of(root, cur.drop_last()) {
            None
        } else {
            walk(root, cur.drop_last(), rel.drop_first())
        }
    } else {
        walk(root, cur.push(rel[0]), rel.drop_first())
    }
}

/// The confined join of `candidate` onto the canonical absolute `root`.
/// An absolute candidate (given with its canonical form, when it has one)
/// must lie under the root; a relative one is walked from the root.
pub open spec fn confined(root: Seq<char>, candidate: Seq<char>, canonical: Option<Seq<char>>) -> Result<Seq<char>, Seq<char>> {
    let rc = components(root);
    if candidate.len() > 0 && candidate[0] == '/' {
        let abs = match canonical {
            Some(c) => c,
            None => candidate,
        };
        if is_prefix_of(rc, components(abs)) {
            Ok(abs)
        } else {
            Err("path escapes workspace: "@ + abs)
        }
    } else {
        match walk(rc, rc, split_on(candidate, '/')) {
            Some(c) => Ok(absolute_text(c)),
            None => Err("path escapes workspace: "@ + candidate),
        }
    }
}

fn components_exec(p: &str) -> (r: Vec<String>)
    ensures
        strs(r@) == components(p@),
{
    let parts = split_on_exec(p, '/');
    let ghost all = strs(parts@);
    let mut out: Vec<String> = Vec::new();
    let mut i: usize = 0;
    assert(strs(out@) =~= Seq::<Seq<char>>::empty());
    while i < parts.len()
        invariant
            i <= parts@.len(),
            all == strs(parts@),
            all == split_on(p@, '/'),
            strs(out@) == named_parts(all.take(i as int)),
        decreases parts.len() - i,
    {
        let ghost cur = all.take(i + 1);
        assert(cur.drop_last() =~= all.take(i as int));
        assert(cur.last() == parts@[i as int]@);
        let seg = parts[i].as_str();
        if seg.unicode_len() > 0 && !str_eq(seg, ".") {
            push_line(&mut out, parts[i].clone());
        }
        i = i + 1;
    }
    assert(all.take(parts@.len() as int) =~= all);
    out
}

fn is_prefix_exec(a: &Vec<String>, b: &Vec<String>) -> (r: bool)
    ensures
        r == is_prefix_of(strs(a@), strs(b@)),
{
    if a.len() > b.len() {
        return false;
    }
    let mut i: usize = 0;
    while i < a.len()
        invariant
            i <= a@.len(),
            a@.len() <= b@.len(),
            forall|k: int| 0 <= k < i ==> a@[k]@ == b@[k]@,
        decreases a.len() - i,
    {
        if !str_eq(a[i].as_str(), b[i].as_str()) {
            assert(strs(b@).subrange(0, a@.len() as int)[i as int] != strs(a@)[i as int]);
            return false;
        }
        i = i + 1;
    }
    assert(strs(b@).subrange(0, a@.len() as int) =~= strs(a@));
    true
}

fn absolute_text_exec(c: &Vec<String>) -> (r: String)
    ensures
        r@ == absolute_text(strs(c@)),
{
    let j = join_strings(c, "/");
    cat("/", j.as_str())
}

/// Join `candidate` onto the canonical absolute `root` without leaving it.
/// `canonical` is the canonical form of an absolute candidate, when the file
/// system could give one.
pub fn safe_join_lexical(root: &str, candidate: &str, canonical: Option<&str>) -> (r: Result<String, EngineError>)
    ensures
        match confined(
            root@,
            candidate@,
            match canonical {
                Some(c) => Some(c@),
                None => None,
            },
        ) {
            Ok(p) => r matches Ok(x) && x@ == p,
            Err(m) => r matches Err(EngineError::PathSafety(x)) && x@ == m,
        },
{
    let rc = components_exec(root);
    let n = candidate.unicode_len();
    if n > 0 && candidate.get_char(0) == '/' {
        let abs = match canonical {
            Some(c) => owned(c),
            None => owned(candidate),
        };
        let ac = components_exec(abs.as_str());
        if is_prefix_exec(&rc, &ac) {
            return Ok(abs);
        } else {
            return Err(EngineError::PathSafety(cat("path escapes workspace: ", abs.as_str())));
        }
    }
    assert(!(candidate@.len() > 0 && candidate@[0] == '/'));
    let parts = split_on_exec(candidate, '/');
    let ghost rel = strs(parts@);
    let ghost rcv = strs(rc@);
    let mut cur: Vec<String> = rc.clone();
    assert(strs(cur@) =~= rcv) by {
        assert(forall|k: int| 0 <= k < cur@.len() ==> cur@[k]@ == rc@[k]@);
    }
    let mut i: usize = 0;
    assert(rel.subrange(0, rel.len() as int) =~= rel);
    while i < parts.len()
        invariant
            i <= parts@.len(),
            rel == strs(parts@),
            rel == split_on(candidate@, '/'),
            rcv == strs(rc@),
            rcv == components(root@),
            !(candidate@.len() > 0 && candidate@[0] == '/'),
            walk(rcv, rcv, rel) == walk(rcv, strs(cur@), rel.subrange(i as int, rel.len() as int)),
        decreases parts.len() - i,
    {
        let ghost rest = rel.subrange(i as int, rel.len() as int);
        assert(rest[0] == parts@[i as int]@);
        assert(rest.drop_first() =~= rel.subrange(i + 1, rel.len() as int));
        let seg = parts[i].as_str();
        if seg.unicode_len() == 0 || str_eq(seg, ".") {
        } else if str_eq(seg, "..") {
            if cur.len() == 0 {
                return Err(EngineError::PathSafety(cat("path escapes workspace: ", candidate)));
            }
            let ghost before = strs(cur@);
            cur.pop();
            assert(strs(cur@) =~= before.drop_last());
            if !is_prefix_exec(&rc, &cur) {
                return Err(EngineError::PathSafety(cat("path escapes workspace: ", candidate)));
            }
        } else {
            push_line(&mut cur, parts[i].clone());
        }
        i = i + 1;
    }
    assert(rel.subrange(rel.len() as int, rel.len() as int) =~= Seq::<Seq<char>>::empty());
    Ok(absolute_text_exec(&cur))
}

/// A walk that starts under the root stays under it.
proof fn lemma_walk_confined(root: Seq<Seq<char>>, cur: Seq<Seq<char>>, rel: Seq<Seq<char>>)
    requires
        is_prefix_of(root, cur),
    ensures
        walk(root, cur, rel) matches Some(c) ==> is_prefix_of(root, c),
    decreases rel.len(),
{
    if rel.len() > 0 {
        if rel[0].len() == 0 || rel[0] == "."@ {
            lemma_walk_confined(root, cur, rel.drop_first());
        } else if rel[0] == ".."@ {
            if cur.len() > 0 && is_prefix_of(root, cur.drop_last()) {
                lemma_walk_confined(root, cur.drop_last(), rel.drop_first());
            }
        } else {
            assert(cur.push(rel[0]).subrange(0, root.len() as int) =~= cur.subrange(
                0,
                root.len() as int,
            ));
            lemma_walk_confined(root, cur.push(rel[0]), rel.drop_first());
        }
    }
}

/// A confined join never leaves the root: an absolute result lies under
/// the root's components, and a walked result is the root followed by more
/// components.
pub proof fn law_safe_join_stays_under_root(root: Seq<char>, candidate: Seq<char>, canonical: Option<Seq<char>>)
    ensures
        confined(root, candidate, canonical) matches Ok(p) ==> (if candidate.len() > 0
            && candidate[0] == '/' {
            is_prefix_of(components(root), components(p))
        } else {
            exists|c: Seq<Seq<char>>|
                is_prefix_of(components(root), c) && p == #[trigger] absolute_text(c)
        }),
{
    let rc = components(root);
    assert(rc.subrange(0, rc.len() as int) =~= rc);
    lemma_walk_confined(rc, rc, split_on(candidate, '/'));
    if !(candidate.len() > 0 && candidate[0] == '/') {
        if let Some(c) = walk(rc, rc, split_on(candidate, '/')) {
            assert(absolute_text(c) == absolute_text(c));
        }
    }
}

/// The name of a run's root directory.
pub open spec fn run_dir_name(run_name: Seq<char>, id: Seq<char>) -> Seq<char> {
    sanitized_run_name(run_name) + "-"@ + id
}

proof fn lemma_named_parts_push(parts: Seq<Seq<char>>, x: Seq<char>)
    requires
        x.len() > 1,
    ensures
        named_parts(parts.push(x)) == named_parts(parts).push(x),
        named_parts(parts.push(Seq::<char>::empty())) == named_parts(parts),
{
    reveal_strlit(".");
    assert(parts.push(x).drop_last() =~= parts);
    assert(parts.push(Seq::<char>::empty()).drop_last() =~= parts);
}

/// A run's root is one directory directly under `base`: its path
/// components are those of `base` followed by the run directory's name,
/// which holds no `/` and is neither `.` nor `..`.
pub proof fn law_run_root_under_base(base: Seq<char>, run_name: Seq<char>, id: Seq<char>)
    requires
        uuid_text(id),
    ensures
        !run_dir_name(run_name, id).contains('/'),
        run_dir_name(run_name, id).len() > 2,
        components(workspace_layout(base, run_name, id).0) == components(base).push(
            run_dir_name(run_name, id),
        ),
{
    reveal_strlit("-");
    reveal_strlit("/");
    let mapped = Seq::new(
        run_name.len(),
        |i: int|
            if run_name_char(run_name[i]) {
                run_name[i]
            } else {
                '-'
            },
    );
    assert(!mapped.contains('/')) by {
        if mapped.contains('/') {
            let k = choose|k: int| 0 <= k < mapped.len() && mapped[k] == '/';
            assert(mapped[k] == '/');
        }
    }
    lemma_trim_char_keeps_out(mapped, '-', '/');
    let name = sanitized_run_name(run_name);
    let dir = run_dir_name(run_name, id);
    assert(dir =~= name + seq!['-'] + id);
    assert(!dir.contains('/')) by {
        if dir.contains('/') {
            let k = choose|k: int| 0 <= k < dir.len() && dir[k] == '/';
            if k < name.len() {
                assert(name[k] == '/');
            } else if k > name.len() {
                assert(id[k - name.len() - 1] == '/');
                assert(lower_hex_char(id[k - name.len() - 1]) || id[k - name.len() - 1] == '-');
            }
        }
    }
    lemma_named_parts_push(split_on(base, '/'), dir);
    if base.len() == 0 {
        lemma_split_single(dir, '/');
        assert(seq![dir] =~= Seq::<Seq<char>>::empty().push(dir));
        assert(split_on(base, '/') =~= seq![Seq::<char>::empty()]);
        lemma_named_parts_push(Seq::<Seq<char>>::empty(), dir);
        assert(seq![Seq::<char>::empty()] =~= Seq::<Seq<char>>::empty().push(Seq::<char>::empty()));
    } else if base.last() == '/' {
        let b = base.drop_last();
        assert(b.push('/') =~= base);
        lemma_split_append(b, dir, '/');
        lemma_split_append(b, Seq::<char>::empty(), '/');
        assert(b.push('/') + Seq::<char>::empty() =~= base);
        lemma_named_parts_push(split_on(b, '/'), dir);
    } else {
        assert(base + "/"@ + dir =~= base.push('/') + dir);
        lemma_split_append(base, dir, '/');
    }
}

} // verus!
