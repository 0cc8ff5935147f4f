use vstd::prelude::*;
use crate::model::device::{Device, DeviceState};
use crate::model::share::{Share, SyncMode, is_member, permission_of, spec_can_pull, spec_can_push};
use crate::discovery::texts;
use crate::text::strip_char_prefix;

verus! {

/// A business rule that a candidate satisfies or not.
pub trait Specification<T> {
    spec fn spec_satisfied(&self, candidate: &T) -> bool;

    fn is_satisfied_by(&self, candidate: &T) -> (res: bool)
        ensures
            res == self.spec_satisfied(candidate),
    ;
}

/// Both rules hold.
pub struct AndSpec<A, B>(pub A, pub B);

impl<T, A: Specification<T>, B: Specification<T>> Specification<T> for AndSpec<A, B> {
    open spec fn spec_satisfied(&self, candidate: &T) -> bool {
        self.0.spec_satisfied(candidate) && self.1.spec_satisfied(candidate)
    }

    fn is_satisfied_by(&self, candidate: &T) -> (res: bool) {
        self.0.is_satisfied_by(candidate) && self.1.is_satisfied_by(candidate)
    }
}

#[derive(Debug, Clone, Copy, PartialEq, Eq, Structural)]
pub enum SyncDirection {
    Push,
    Pull,
}

/// A peer asking to sync a share in one direction.
pub struct SyncContext<'a> {
    pub device: &'a Device,
    pub share: &'a Share,
    pub action: SyncDirection,
}

/// The peer is paired.
pub struct TrustedDeviceSpec;

impl<'a> Specification<SyncContext<'a>> for TrustedDeviceSpec {
    open spec fn spec_satisfied(&self, candidate: &SyncContext<'a>) -> bool {
        candidate.device.state is Paired
    }

    fn is_satisfied_by(&self, candidate: &SyncContext<'a>) -> (res: bool) {
        matches!(candidate.device.state, DeviceState::Paired(_))
    }
}

/// The peer is a member of the share.
pub struct ShareMemberSpec;

impl<'a> Specification<SyncContext<'a>> for ShareMemberSpec {
    open spec fn spec_satisfied(&self, candidate: &SyncContext<'a>) -> bool {
        is_member(candidate.share.members@, candidate.device.id@)
    }

    fn is_satisfied_by(&self, candidate: &SyncContext<'a>) -> (res: bool) {
        candidate.share.has_member(&candidate.device.id)
    }
}

/// The share's mode lets peers move data in this direction: a SendOnly share
/// takes no pushes from peers, a ReceiveOnly share serves no pulls.
pub open spec fn mode_allows_push(mode: SyncMode) -> bool {
    mode != SyncMode::SendOnly
}

pub open spec fn mode_allows_pull(mode: SyncMode) -> bool {
    mode != SyncMode::ReceiveOnly
}

/// The share's mode and the member's permission allow the direction.
pub open spec fn spec_permission_allows(share: &Share, device_id: Seq<char>, push: bool) -> bool {
    &&& if push { mode_allows_push(share.sync_mode) } else { mode_allows_pull(share.sync_mode) }
    &&& match permission_of(share.members@, device_id) {
        Some(p) => if push { spec_can_push(p) } else { spec_can_pull(p) },
        None => false,
    }
}

/// The share's mode and the peer's permission allow the direction.
pub struct PermissionSpec;

impl<'a> Specification<SyncContext<'a>> for PermissionSpec {
    open spec fn spec_satisfied(&self, candidate: &SyncContext<'a>) -> bool {
        spec_permission_allows(candidate.share, candidate.device.id@, candidate.action == SyncDirection::Push)
    }

    fn is_satisfied_by(&self, candidate: &SyncContext<'a>) -> (res: bool) {
        match candidate.share.sync_mode {
            SyncMode::TwoWay => {},
            SyncMode::SendOnly => {
                if candidate.action == SyncDirection::Push {
                    return false;
                }
            },
            SyncMode::ReceiveOnly => {
                if candidate.action == SyncDirection::Pull {
                    return false;
                }
            },
        }
        match candidate.share.get_permission(&candidate.device.id) {
            Some(perm) => match candidate.action {
                SyncDirection::Push => perm.can_push(),
                SyncDirection::Pull => perm.can_pull(),
            },
            None => false,
        }
    }
}

/// Whether `gitignore` rule lines all parse as globs and build into one
/// matcher (`GitignoreBuilder::add_line` for each, then `build`). Neither
/// step reads the matcher's root, so this depends on the lines alone.
pub uninterp spec fn gitignore_rules_ok(rules: Seq<Seq<char>>) -> bool;

/// Whether the matcher built at `base_dir` from `rules` ignores `path` or one
/// of its parent directories (`Gitignore::matched_path_or_any_parents(path,
/// is_dir).is_ignore()`), with gitignore semantics over the paths of the
/// target platform, fixed when the crate is built.
pub uninterp spec fn gitignore_verdict(base_dir: Seq<char>, rules: Seq<Seq<char>>, path: Seq<char>, is_dir: bool) -> bool;

/// Builds a `GitignoreBuilder` (root unused) from `rules`, one `add_line` per
/// line, and calls `build`; `Ok` exactly when all of that succeeds, with the
/// crate's error message otherwise.
#[verifier::external_body]
fn gitignore_check(rules: &Vec<String>) -> (res: Result<(), String>)
    ensures
        res is Ok <==> gitignore_rules_ok(texts(rules@)),
{
    let mut builder = ignore::gitignore::GitignoreBuilder::new("");
    for rule in rules.iter() {
        builder.add_line(None, rule).map_err(|e| e.to_string())?;
    }
    builder.build().map(|_| ()).map_err(|e| e.to_string())
}

/// Builds the matcher at `base_dir` from `rules` as `gitignore_check` does and
/// asks `matched_path_or_any_parents(path, is_dir).is_ignore()`. That method
/// panics when `path`, once the matcher has stripped it, still has a root;
/// `ignore_path_ok` rules that out.
#[verifier::external_body]
fn gitignore_ignored(base_dir: &str, rules: &Vec<String>, path: &str, is_dir: bool) -> (res: Result<bool, String>)
    requires
        ignore_path_ok(base_dir@, path@),
    ensures
        res is Ok <==> gitignore_rules_ok(texts(rules@)),
        res matches Ok(b) ==> b == gitignore_verdict(base_dir@, texts(rules@), path@, is_dir),
{
    let mut builder = ignore::gitignore::GitignoreBuilder::new(base_dir);
    for rule in rules.iter() {
        builder.add_line(None, rule).map_err(|e| e.to_string())?;
    }
    let matcher = builder.build().map_err(|e| e.to_string())?;
    Ok(matcher.matched_path_or_any_parents(path, is_dir).is_ignore())
}

/// `p` without one leading `./`, which the matcher drops from paths and roots.
pub open spec fn without_dot_slash(p: Seq<char>) -> Seq<char> {
    if "./"@.len() <= p.len() && p.subrange(0, "./"@.len() as int) == "./"@ {
        p.subrange("./"@.len() as int, p.len() as int)
    } else {
        p
    }
}

/// A path the matcher at `base_dir` takes without panicking on any platform:
/// once a leading `./` is dropped it starts with no separator and no drive
/// (`X:`), and it does not continue the root with two separators, which
/// would leave a rooted path after the root is stripped.
pub open spec fn ignore_path_ok(base_dir: Seq<char>, path: Seq<char>) -> bool {
    let q = without_dot_slash(path);
    let r = without_dot_slash(base_dir);
    &&& !(q.len() > 0 && (q[0] == '/' || q[0] == '\\'))
    &&& !(q.len() >= 2 && q[1] == ':')
    &&& !(r.len() + 2 <= q.len() && q.subrange(0, r.len() as int) == r && q[r.len() as int] == '/'
        && q[r.len() + 1int] == '/')
}

fn drop_dot_slash(p: &str) -> (res: &str)
    ensures
        res@ == without_dot_slash(p@),
{
    match strip_char_prefix(p, "./") {
        Some(r) => r,
        None => p,
    }
}

/// Whether the ignore rules of a share at `base_dir` can be asked about `path`.
pub fn ignore_path_allowed(base_dir: &str, path: &str) -> (res: bool)
    ensures
        res == ignore_path_ok(base_dir@, path@),
{
    let q = drop_dot_slash(path);
    let r = drop_dot_slash(base_dir);
    let n = q.unicode_len();
    if n > 0 {
        let c = q.get_char(0);
        if c == '/' || c == '\\' {
            return false;
        }
    }
    if n >= 2 && q.get_char(1) == ':' {
        return false;
    }
    match strip_char_prefix(q, r) {
        Some(rest) => {
            let m = rest.unicode_len();
            if m >= 2 && rest.get_char(0) == '/' && rest.get_char(1) == '/' {
                assert(q@[r@.len() as int] == rest@[0]);
                assert(q@[r@.len() + 1int] == rest@[1]);
                false
            } else {
                proof {
                    if r@.len() + 2 <= q@.len() {
                        assert(q@[r@.len() as int] == rest@[0]);
                        assert(q@[r@.len() + 1int] == rest@[1]);
                    }
                }
                true
            }
        },
        None => true,
    }
}

/// The rules every share starts with.
pub open spec fn default_ignore_rules() -> Seq<Seq<char>> {
    seq![".DS_Store"@, "Thumbs.db"@, "desktop.ini"@, "$RECYCLE.BIN"@, ".lansync-tmp/"@]
}

fn default_rule_lines() -> (res: Vec<String>)
    ensures
        texts(res@) == default_ignore_rules(),
{
    let mut v: Vec<String> = Vec::new();
    v.push(".DS_Store".to_string());
    v.push("Thumbs.db".to_string());
    v.push("desktop.ini".to_string());
    v.push("$RECYCLE.BIN".to_string());
    v.push(".lansync-tmp/".to_string());
    assert(texts(v@) =~= default_ignore_rules());
    v
}

/// `s` without the byte-order marks it starts with.
pub open spec fn strip_boms(s: Seq<char>) -> Seq<char>
    decreases s.len(),
{
    if s.len() > 0 && s[0] == '\u{feff}' {
        strip_boms(s.subrange(1, s.len() as int))
    } else {
        s
    }
}

/// The lines of an ignore file as rules: byte-order marks at the start of
/// the first line are not part of it.
pub open spec fn file_rule_lines(lines: Seq<Seq<char>>) -> Seq<Seq<char>> {
    if lines.len() == 0 {
        lines
    } else {
        lines.update(0, strip_boms(lines[0]))
    }
}

fn strip_leading_boms(s: &str) -> (res: String)
    ensures
        res@ == strip_boms(s@),
    decreases s@.len(),
{
    let n = s.unicode_len();
    if n > 0 && s.get_char(0) == '\u{feff}' {
        strip_leading_boms(s.substring_char(1, n))
    } else {
        s.to_string()
    }
}

proof fn lemma_texts_concat(a: Seq<String>, b: Seq<String>)
    ensures
        texts(a + b) == texts(a) + texts(b),
{
    assert(texts(a + b) =~= texts(a) + texts(b));
}

/// The `.syncignore` rules of a share: the defaults, then the share's own
/// lines, matched with gitignore semantics relative to the share's folder.
pub struct IgnoreSpec {
    base_dir: String,
    rules: Vec<String>,
}

impl IgnoreSpec {
    #[verifier::type_invariant]
    spec fn wf(self) -> bool {
        gitignore_rules_ok(texts(self.rules@))
    }

    /// The folder the rules are matched relative to.
    pub closed spec fn base(&self) -> Seq<char> {
        self.base_dir@
    }

    /// The rule lines, in order.
    pub closed spec fn rule_lines(&self) -> Seq<Seq<char>> {
        texts(self.rules@)
    }

    /// The default rules followed by `additional_rules`, at `base_dir`; an
    /// error when a rule does not parse.
    pub fn new(base_dir: String, additional_rules: Vec<String>) -> (res: Result<Self, String>)
        ensures
            res is Ok <==> gitignore_rules_ok(default_ignore_rules() + texts(additional_rules@)),
            res matches Ok(s) ==> s.base() == base_dir@ && s.rule_lines() == default_ignore_rules() + texts(
                additional_rules@,
            ),
    {
        let mut rules = default_rule_lines();
        let mut extra = additional_rules;
        let ghost d = rules@;
        let ghost e = extra@;
        rules.append(&mut extra);
        proof {
            lemma_texts_concat(d, e);
        }
        match gitignore_check(&rules) {
            Ok(()) => Ok(IgnoreSpec { base_dir, rules }),
            Err(m) => Err(m),
        }
    }

    /// The rules of an ignore file whose `lines` were read, at `base_dir`
    /// (the folder holding the file); byte-order marks opening the file are
    /// dropped.
    pub fn from_lines(base_dir: String, lines: Vec<String>) -> (res: Result<Self, String>)
        ensures
            res is Ok <==> gitignore_rules_ok(default_ignore_rules() + file_rule_lines(texts(lines@))),
            res matches Ok(s) ==> s.base() == base_dir@ && s.rule_lines() == default_ignore_rules() + file_rule_lines(
                texts(lines@),
            ),
    {
        let mut cleaned: Vec<String> = Vec::new();
        let mut i: usize = 0;
        while i < lines.len()
            invariant
                i <= lines@.len(),
                cleaned@.len() == i,
                forall|k: int| 0 <= k < i ==> #[trigger] cleaned@[k]@ == file_rule_lines(texts(lines@))[k],
            decreases lines@.len() - i,
        {
            if i == 0 {
                let first = strip_leading_boms(lines[0].as_str());
                cleaned.push(first);
            } else {
                cleaned.push(lines[i].clone());
            }
            i = i + 1;
        }
        assert(texts(cleaned@) =~= file_rule_lines(texts(lines@)));
        Self::new(base_dir, cleaned)
    }

    /// Whether `path` (relative to the share's folder) or a folder above it
    /// is ignored by the rules.
    pub fn is_ignored(&self, path: &str, is_dir: bool) -> (res: bool)
        requires
            ignore_path_ok(self.base(), path@),
        ensures
            res == gitignore_verdict(self.base(), self.rule_lines(), path@, is_dir),
    {
        proof {
            use_type_invariant(self);
        }
        match gitignore_ignored(self.base_dir.as_str(), &self.rules, path, is_dir) {
            Ok(b) => b,
            Err(_) => false,
        }
    }
}

/// Every share ignores the same five names before its own rules: the macOS
/// folder metadata `.DS_Store`, the Windows `Thumbs.db`, `desktop.ini` and
/// `$RECYCLE.BIN`, and the transfer scratch folder `.lansync-tmp/`; the
/// share's own lines follow them in order.
pub proof fn lemma_default_rules_come_first(s: IgnoreSpec, extra: Seq<Seq<char>>)
    requires
        s.rule_lines() == default_ignore_rules() + extra,
    ensures
        s.rule_lines().len() == 5 + extra.len(),
        s.rule_lines()[0] == ".DS_Store"@,
        s.rule_lines()[1] == "Thumbs.db"@,
        s.rule_lines()[2] == "desktop.ini"@,
        s.rule_lines()[3] == "$RECYCLE.BIN"@,
        s.rule_lines()[4] == ".lansync-tmp/"@,
        forall|k: int| 0 <= k < extra.len() ==> s.rule_lines()[5 + k] == extra[k],
{
}

} // verus!
