//! Lexical path resolution against an explicit working directory.
//!
//! A path is read as a sequence of components separated by `/`. Empty
//! components (from repeated or trailing slashes) and `.` components carry no
//! meaning and are dropped; `..` is kept as it stands, since resolving it would
//! require looking at the filesystem.

use vstd::prelude::*;

verus! {

/// Adds a finished segment to the components read so far, unless it is empty
/// or `.`.
pub open spec fn push_segment(acc: Seq<Seq<char>>, seg: Seq<char>) -> Seq<Seq<char>> {
    if seg.len() == 0 || seg == seq!['.'] {
        acc
    } else {
        acc.push(seg)
    }
}

/// The state after reading the first `n` characters of `s`: the components
/// already finished and the segment being read.
pub open spec fn scan(s: Seq<char>, n: nat) -> (Seq<Seq<char>>, Seq<char>)
    recommends
        n <= s.len(),
    decreases n,
{
    if n == 0 {
        (seq![], seq![])
    } else {
        let prev = scan(s, (n - 1) as nat);
        if s[n - 1] == '/' {
            (push_segment(prev.0, prev.1), seq![])
        } else {
            (prev.0, prev.1.push(s[n - 1]))
        }
    }
}

/// The meaningful components of `s`, in order.
pub open spec fn components_of(s: Seq<char>) -> Seq<Seq<char>> {
    let st = scan(s, s.len());
    push_segment(st.0, st.1)
}

/// A path is absolute when it starts at the root.
pub open spec fn is_absolute(s: Seq<char>) -> bool {
    s.len() > 0 && s[0] == '/'
}

/// The absolute form of `target`, as components below the root, when it is
/// read from the directory whose components are `cwd`.
pub open spec fn resolve(cwd: Seq<Seq<char>>, target: Seq<char>) -> Seq<Seq<char>> {
    if is_absolute(target) {
        components_of(target)
    } else {
        cwd + components_of(target)
    }
}

/// `target` names an entry directly inside the directory `cwd`: its resolved
/// form has a parent, and that parent is `cwd` itself.
pub open spec fn is_direct_child(cwd: Seq<Seq<char>>, target: Seq<char>) -> bool {
    let r = resolve(cwd, target);
    r.len() > 0 && r.drop_last() == cwd
}

/// The entry name that a directly contained target stands for.
pub open spec fn entry_name_of(cwd: Seq<Seq<char>>, target: Seq<char>) -> Seq<char> {
    resolve(cwd, target).last()
}

/// Whether `a` and `b` hold the same characters.
pub fn same_text(a: &str, b: &str) -> (r: bool)
    ensures
        r == (a@ == b@),
{
    let n = a.unicode_len();
    if n != b.unicode_len() {
        return false;
    }
    let mut i: usize = 0;
    while i < n
        invariant
            n == a@.len(),
            n == b@.len(),
            i <= n,
            forall|j: int| 0 <= j < i ==> a@[j] == b@[j],
        decreases n - i,
    {
        if a.get_char(i) != b.get_char(i) {
            return false;
        }
        i = i + 1;
    }
    assert(a@ =~= b@);
    true
}

fn push_segment_exec(acc: &mut Vec<String>, seg: String)
    ensures
        final(acc).deep_view() == push_segment(old(acc).deep_view(), seg@),
{
    let len = seg.unicode_len();
    let is_dot = len == 1 && seg.as_str().get_char(0) == '.';
    if len == 0 || is_dot {
        proof {
            if len != 0 {
                assert(seg@ =~= seq!['.']);
            }
        }
    } else {
        proof {
            if seg@ == seq!['.'] {
                assert(seg@[0] == '.');
            }
        }
        let ghost before = acc.deep_view();
        acc.push(seg);
        assert(acc.deep_view() =~= before.push(seg@));
    }
}

/// Splits `s` into its meaningful components.
pub fn components(s: &str) -> (r: Vec<String>)
    ensures
        r.deep_view() == components_of(s@),
{
    let n = s.unicode_len();
    let mut acc: Vec<String> = Vec::new();
    let mut start: usize = 0;
    let mut i: usize = 0;
    assert(acc.deep_view() =~= seq![]);
    assert(s@.subrange(0, 0) =~= seq![]);
    while i < n
        invariant
            n == s@.len(),
            start <= i <= n,
            (acc.deep_view(), s@.subrange(start as int, i as int)) == scan(s@, i as nat),
        decreases n - i,
    {
        let c = s.get_char(i);
        if c == '/' {
            let seg = String::from_str(s.substring_char(start, i));
            push_segment_exec(&mut acc, seg);
            start = i + 1;
            assert(s@.subrange(start as int, (i + 1) as int) =~= seq![]);
        } else {
            assert(s@.subrange(start as int, (i + 1) as int) =~= s@.subrange(
                start as int,
                i as int,
            ).push(c));
        }
        i = i + 1;
    }
    let seg = String::from_str(s.substring_char(start, n));
    push_segment_exec(&mut acc, seg);
    acc
}

/// Whether `a` is one component longer than `prefix` and starts with it.
fn extends_by_one(prefix: &Vec<String>, a: &Vec<String>) -> (r: bool)
    ensures
        r == (a.deep_view().len() > 0 && a.deep_view().drop_last() == prefix.deep_view()),
{
    if a.len() == 0 || a.len() - 1 != prefix.len() {
        proof {
            if a.deep_view().len() > 0 {
                assert(a.deep_view().drop_last().len() != prefix.deep_view().len());
            }
        }
        return false;
    }
    let mut j: usize = 0;
    while j < prefix.len()
        invariant
            a.len() == prefix.len() + 1,
            j <= prefix.len(),
            forall|k: int| 0 <= k < j ==> a.deep_view()[k] == prefix.deep_view()[k],
        decreases prefix.len() - j,
    {
        if a[j] != prefix[j] {
            assert(a.deep_view().drop_last()[j as int] != prefix.deep_view()[j as int]);
            return false;
        }
        j = j + 1;
    }
    assert(a.deep_view().drop_last() =~= prefix.deep_view());
    true
}

/// The entry name that `target` stands for when, read from the directory
/// whose components are `cwd`, it lies directly inside that directory;
/// `None` when it does not.
pub fn direct_child_name(cwd: &Vec<String>, target: &str) -> (r: Option<String>)
    ensures
        r is Some <==> is_direct_child(cwd.deep_view(), target@),
        r matches Some(n) ==> n@ == entry_name_of(cwd.deep_view(), target@),
{
    let mut comps = components(target);
    let absolute = target.unicode_len() > 0 && target.get_char(0) == '/';
    if absolute {
        if extends_by_one(cwd, &comps) {
            let last = comps.pop();
            last
        } else {
            None
        }
    } else {
        let ghost r = cwd.deep_view() + comps.deep_view();
        proof {
            if comps.len() != 1 && r.len() > 0 {
                assert(r.drop_last().len() != cwd.deep_view().len());
            }
            if comps.len() == 1 {
                assert(r.drop_last() =~= cwd.deep_view());
            }
        }
        if comps.len() == 1 {
            comps.pop()
        } else {
            None
        }
    }
}

/// Reading `.` as a leading component leaves a scan where it was.
proof fn lemma_scan_after_prefix(p: Seq<char>, s: Seq<char>, n: nat)
    requires
        scan(p, p.len()) == (Seq::<Seq<char>>::empty(), Seq::<char>::empty()),
        n <= s.len(),
    ensures
        scan(p + s, p.len() + n) == scan(s, n),
    decreases n,
{
    if n == 0 {
        lemma_scan_prefix_only(p, s, p.len());
    } else {
        lemma_scan_after_prefix(p, s, (n - 1) as nat);
        assert((p + s)[p.len() + n - 1] == s[n - 1]);
    }
}

/// A scan of `p + s` that stops within `p` is a scan of `p`.
proof fn lemma_scan_prefix_only(p: Seq<char>, s: Seq<char>, n: nat)
    requires
        n <= p.len(),
    ensures
        scan(p + s, n) == scan(p, n),
    decreases n,
{
    if n > 0 {
        lemma_scan_prefix_only(p, s, (n - 1) as nat);
        assert((p + s)[n - 1] == p[n - 1]);
    }
}

/// A leading `./` is no component.
proof fn lemma_dot_slash_prefix(s: Seq<char>)
    ensures
        components_of(seq!['.', '/'] + s) == components_of(s),
{
    let p = seq!['.', '/'];
    assert(scan(p, 0) == (Seq::<Seq<char>>::empty(), Seq::<char>::empty()));
    assert(scan(p, 1) == (Seq::<Seq<char>>::empty(), seq!['.']));
    assert(scan(p, 1).1 == seq!['.']);
    assert(scan(p, 2) == (Seq::<Seq<char>>::empty(), Seq::<char>::empty()));
    lemma_scan_after_prefix(p, s, s.len());
    assert((p + s).len() == p.len() + s.len());
}

/// Spelling a relative target with leading `./` or `././` does not change
/// whether it lies directly inside the working directory, nor the entry it
/// names.
pub proof fn law_dot_prefix_same_decision(cwd: Seq<Seq<char>>, s: Seq<char>)
    requires
        !is_absolute(s),
    ensures
        is_direct_child(cwd, seq!['.', '/'] + s) == is_direct_child(cwd, s),
        is_direct_child(cwd, seq!['.', '/', '.', '/'] + s) == is_direct_child(cwd, s),
        resolve(cwd, seq!['.', '/'] + s) == resolve(cwd, s),
        resolve(cwd, seq!['.', '/', '.', '/'] + s) == resolve(cwd, s),
{
    let once = seq!['.', '/'] + s;
    lemma_dot_slash_prefix(s);
    lemma_dot_slash_prefix(once);
    assert(seq!['.', '/', '.', '/'] + s =~= seq!['.', '/'] + once);
    assert(!is_absolute(once));
    assert(!is_absolute(seq!['.', '/', '.', '/'] + s));
}

/// A single file name: not empty, not `.`, and without `/`.
pub open spec fn is_plain_name(n: Seq<char>) -> bool {
    n.len() > 0 && n != seq!['.'] && forall|i: int| 0 <= i < n.len() ==> n[i] != '/'
}

proof fn lemma_scan_plain(n: Seq<char>, k: nat)
    requires
        k <= n.len(),
        forall|i: int| 0 <= i < n.len() ==> n[i] != '/',
    ensures
        scan(n, k) == (Seq::<Seq<char>>::empty(), n.subrange(0, k as int)),
    decreases k,
{
    if k > 0 {
        lemma_scan_plain(n, (k - 1) as nat);
        assert(n.subrange(0, k as int) =~= n.subrange(0, k - 1).push(n[k - 1]));
    }
}

/// A directory entry's own name, read from the working directory, resolves to
/// the working directory followed by that name: comparing entry names is
/// comparing absolute paths.
pub proof fn law_entry_resolves_below_cwd(cwd: Seq<Seq<char>>, n: Seq<char>)
    requires
        is_plain_name(n),
    ensures
        components_of(n) == seq![n],
        resolve(cwd, n) == cwd.push(n),
        is_direct_child(cwd, n),
        entry_name_of(cwd, n) == n,
{
    lemma_scan_plain(n, n.len());
    assert(n.subrange(0, n.len() as int) =~= n);
    assert(!is_absolute(n));
    assert(cwd + seq![n] =~= cwd.push(n));
    assert(cwd.push(n).drop_last() =~= cwd);
}

/// A target that lies directly inside the working directory resolves to the
/// working directory followed by the entry name it stands for.
pub proof fn law_direct_child_resolves_to_name(cwd: Seq<Seq<char>>, t: Seq<char>)
    requires
        is_direct_child(cwd, t),
    ensures
        resolve(cwd, t) == cwd.push(entry_name_of(cwd, t)),
{
    let r = resolve(cwd, t);
    assert(r =~= r.drop_last().push(r.last()));
}

} // verus!
